//! Device identification: parsers for the platform-specific serial lookups.
//!
//! The lookups themselves are shell work; these functions turn their
//! captured output into the device identifier, falling back to "unknown".

use vstd::prelude::*;
use vstd::slice::slice_to_vec;
use crate::text::{
    bytes_of, contains_bytes, contains_seq, nth_token, nth_token_vec, split_lines,
    split_lines_vec, trim_bytes, trim_slice,
};

verus! {

/// Basic facts about a device, as the shell reports them.
#[derive(Clone, Debug)]
pub struct DeviceInfo {
    pub os: String,
    pub version: String,
    pub device_id: String,
}

impl DeviceInfo {
    pub fn new(os: String, version: String, device_id: String) -> (r: DeviceInfo)
        ensures
            r.os@ == os@,
            r.version@ == version@,
            r.device_id@ == device_id@,
    {
        DeviceInfo { os, version, device_id }
    }
}

/// The serial number in a two-line listing (header, then value): the
/// trimmed second line, or "unknown" when it is missing or blank.
pub open spec fn serial_listing_id(out: Seq<u8>) -> Seq<u8> {
    let ls = split_lines(out);
    if ls.len() <= 1 {
        bytes_of("unknown")
    } else {
        let t = trim_bytes(ls[1]);
        if t.len() == 0 {
            bytes_of("unknown")
        } else {
            t
        }
    }
}

/// Reads the device identifier from a serial-number listing whose first
/// line is the column header.
pub fn device_id_from_serial_listing(out: &[u8]) -> (r: Vec<u8>)
    ensures
        r@ == serial_listing_id(out@),
{
    let lines = split_lines_vec(out);
    if lines.len() <= 1 {
        slice_to_vec("unknown".as_bytes())
    } else {
        proof {
            assert(lines@[1]@ == lines.deep_view()[1]);
        }
        let t = trim_slice(lines[1].as_slice());
        if t.len() == 0 {
            slice_to_vec("unknown".as_bytes())
        } else {
            slice_to_vec(t)
        }
    }
}

/// The serial number in a hardware profile: the fourth whitespace-delimited
/// token of the first line mentioning "Serial Number", or "unknown".
pub open spec fn hardware_profile_scan(lines: Seq<Seq<u8>>) -> Seq<u8>
    decreases lines.len(),
{
    if lines.len() == 0 {
        bytes_of("unknown")
    } else if contains_seq(lines[0], bytes_of("Serial Number")) {
        match nth_token(lines[0], 3) {
            Option::Some(t) => t,
            Option::None => bytes_of("unknown"),
        }
    } else {
        hardware_profile_scan(lines.drop_first())
    }
}

pub open spec fn hardware_profile_id(out: Seq<u8>) -> Seq<u8> {
    hardware_profile_scan(split_lines(out))
}

/// Reads the device identifier from a hardware-profile dump.
pub fn device_id_from_hardware_profile(out: &[u8]) -> (r: Vec<u8>)
    ensures
        r@ == hardware_profile_id(out@),
{
    let lines = split_lines_vec(out);
    let n = lines.len();
    proof {
        assert(lines.deep_view().skip(0) =~~= lines.deep_view());
    }
    let mut i: usize = 0;
    while i < n
        invariant
            0 <= i <= n,
            n == lines@.len(),
            lines.deep_view() == split_lines(out@),
            hardware_profile_id(out@) == hardware_profile_scan(lines.deep_view().skip(i as int)),
        decreases n - i,
    {
        proof {
            let ldv = lines.deep_view();
            assert(ldv.skip(i as int).drop_first() =~~= ldv.skip(i as int + 1));
            assert(ldv.skip(i as int)[0] == ldv[i as int]);
            assert(lines@[i as int]@ == ldv[i as int]);
        }
        let l = lines[i].as_slice();
        if contains_bytes(l, "Serial Number".as_bytes()) {
            match nth_token_vec(l, 3) {
                Option::Some(t) => {
                    proof {
                        assert(t.deep_view() =~= t@);
                    }
                    return t;
                },
                Option::None => {
                    return slice_to_vec("unknown".as_bytes());
                },
            }
        }
        i += 1;
    }
    proof {
        assert(lines.deep_view().skip(n as int) =~~= Seq::<Seq<u8>>::empty());
    }
    slice_to_vec("unknown".as_bytes())
}

/// The device identifier from machine-identity files: the trimmed primary
/// file if it could be read, else the trimmed fallback file, else
/// "unknown".
pub open spec fn machine_files_id(primary: Option<Seq<u8>>, fallback: Option<Seq<u8>>) -> Seq<
    u8,
> {
    match primary {
        Option::Some(p) => trim_bytes(p),
        Option::None => match fallback {
            Option::Some(f) => trim_bytes(f),
            Option::None => bytes_of("unknown"),
        },
    }
}

/// Picks the device identifier from the two machine-identity files, in
/// their fixed order.
pub fn device_id_from_machine_files(primary: Option<&Vec<u8>>, fallback: Option<&Vec<u8>>) -> (r:
    Vec<u8>)
    ensures
        r@ == machine_files_id(primary.deep_view(), fallback.deep_view()),
{
    match primary {
        Option::Some(p) => {
            proof {
                assert(p.deep_view() =~= p@);
            }
            slice_to_vec(trim_slice(p.as_slice()))
        },
        Option::None => match fallback {
            Option::Some(f) => {
                proof {
                    assert(f.deep_view() =~= f@);
                }
                slice_to_vec(trim_slice(f.as_slice()))
            },
            Option::None => slice_to_vec("unknown".as_bytes()),
        },
    }
}

} // verus!
