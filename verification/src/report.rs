//! The posture snapshot in the shape the remote data store takes, and the
//! request parts for sending it.

use vstd::prelude::*;
use crate::text::{bytes_of, dec_digits, u32_to_dec_vec, append_bytes};
use vstd::slice::slice_to_vec;

verus! {

/// A security-posture snapshot as the caller hands it in: three independent
/// optional findings.
#[derive(Clone, Debug)]
pub struct SecurityReport {
    pub antivirus: Option<Vec<u8>>,
    pub disk_encryption: Option<Vec<u8>>,
    pub screen_lock: Option<u32>,
}

impl Default for SecurityReport {
    /// An empty snapshot: nothing detected.
    fn default() -> (r: SecurityReport)
        ensures
            r.antivirus is None,
            r.disk_encryption is None,
            r.screen_lock is None,
    {
        SecurityReport { antivirus: None, disk_encryption: None, screen_lock: None }
    }
}

/// The flattened record the remote data store keeps per device: each
/// optional finding becomes a presence flag plus a plain value.
#[derive(Clone, Debug)]
pub struct SupabaseReport {
    pub device_id: String,
    pub user_email: String,
    pub user_full_name: String,
    pub disk_encrypted: bool,
    pub encryption_type: Vec<u8>,
    pub antivirus_detected: bool,
    pub antivirus_name: Vec<u8>,
    pub screen_lock_active: bool,
    pub screen_lock_time: Vec<u8>,
    pub operating_system: String,
    pub os_version: String,
    pub last_check: String,
}

impl SupabaseReport {
    /// Flattens a snapshot: an absent finding becomes `false` plus an empty
    /// value, and a missing screen-lock timeout reads "0".
    pub fn from_report(
        report: SecurityReport,
        device_id: String,
        user_email: String,
        user_full_name: String,
        operating_system: String,
        os_version: String,
        last_check: String,
    ) -> (r: SupabaseReport)
        ensures
            r.device_id@ == device_id@,
            r.user_email@ == user_email@,
            r.user_full_name@ == user_full_name@,
            r.disk_encrypted == (report.disk_encryption is Some),
            r.encryption_type@ == (match report.disk_encryption {
                Option::Some(v) => v@,
                Option::None => Seq::<u8>::empty(),
            }),
            r.antivirus_detected == (report.antivirus is Some),
            r.antivirus_name@ == (match report.antivirus {
                Option::Some(v) => v@,
                Option::None => Seq::<u8>::empty(),
            }),
            r.screen_lock_active == (report.screen_lock is Some),
            r.screen_lock_time@ == dec_digits(
                match report.screen_lock {
                    Option::Some(m) => m as int,
                    Option::None => 0,
                },
            ),
            r.operating_system@ == operating_system@,
            r.os_version@ == os_version@,
            r.last_check@ == last_check@,
    {
        let disk_encrypted = report.disk_encryption.is_some();
        let antivirus_detected = report.antivirus.is_some();
        let screen_lock_active = report.screen_lock.is_some();
        let encryption_type = match report.disk_encryption {
            Option::Some(v) => v,
            Option::None => Vec::new(),
        };
        let antivirus_name = match report.antivirus {
            Option::Some(v) => v,
            Option::None => Vec::new(),
        };
        let screen_lock_time = match report.screen_lock {
            Option::Some(m) => u32_to_dec_vec(m),
            Option::None => u32_to_dec_vec(0),
        };
        SupabaseReport {
            device_id,
            user_email,
            user_full_name,
            disk_encrypted,
            encryption_type,
            antivirus_detected,
            antivirus_name,
            screen_lock_active,
            screen_lock_time,
            operating_system,
            os_version,
            last_check,
        }
    }
}

/// The endpoint a posture snapshot is sent to, keyed by device.
pub open spec fn report_endpoint_spec(base: Seq<u8>, device_id: Seq<u8>) -> Seq<u8> {
    base + bytes_of("/rest/v1/security_reports?device_id=eq.") + device_id + bytes_of(
        "&on_conflict=user_email,device_id",
    )
}

pub fn report_endpoint(base: &[u8], device_id: &[u8]) -> (r: Vec<u8>)
    ensures
        r@ == report_endpoint_spec(base@, device_id@),
{
    let mut r = slice_to_vec(base);
    append_bytes(&mut r, "/rest/v1/security_reports?device_id=eq.".as_bytes());
    append_bytes(&mut r, device_id);
    append_bytes(&mut r, "&on_conflict=user_email,device_id".as_bytes());
    proof {
        assert(r@ =~= report_endpoint_spec(base@, device_id@));
    }
    r
}

/// The endpoint the latest stored snapshot is read from, keyed by device
/// and user.
pub open spec fn last_report_endpoint_spec(base: Seq<u8>, device_id: Seq<u8>, email: Seq<
    u8,
>) -> Seq<u8> {
    base + bytes_of("/rest/v1/security_reports?device_id=eq.") + device_id + bytes_of(
        "&user_email=eq.",
    ) + email + bytes_of("&order=last_check.desc&limit=1")
}

pub fn last_report_endpoint(base: &[u8], device_id: &[u8], email: &[u8]) -> (r: Vec<u8>)
    ensures
        r@ == last_report_endpoint_spec(base@, device_id@, email@),
{
    let mut r = slice_to_vec(base);
    append_bytes(&mut r, "/rest/v1/security_reports?device_id=eq.".as_bytes());
    append_bytes(&mut r, device_id);
    append_bytes(&mut r, "&user_email=eq.".as_bytes());
    append_bytes(&mut r, email);
    append_bytes(&mut r, "&order=last_check.desc&limit=1".as_bytes());
    proof {
        assert(r@ =~= last_report_endpoint_spec(base@, device_id@, email@));
    }
    r
}

/// The bearer-token authorization header value for a given API key.
pub open spec fn bearer_header_spec(key: Seq<u8>) -> Seq<u8> {
    bytes_of("Bearer ") + key
}

pub fn bearer_header(key: &[u8]) -> (r: Vec<u8>)
    ensures
        r@ == bearer_header_spec(key@),
{
    let mut r = slice_to_vec("Bearer ".as_bytes());
    append_bytes(&mut r, key);
    r
}

} // verus!
