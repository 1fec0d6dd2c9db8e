//! The platform-dispatched probes and the posture aggregator.
//!
//! Each probe takes the evidence its platform strategy captured — the raw
//! outputs of the utilities it runs, with `None` marking a process that
//! could not be spawned — and is verified to interpret it exactly as the
//! per-platform parsers specify.  For an unrecognised platform the shell
//! captures nothing and hands in `NotProbed`, which yields an absent result
//! without any process invocation.

use vstd::prelude::*;
use crate::antivirus::{
    linux_antivirus, linux_antivirus_spec, macos_antivirus, macos_antivirus_spec,
    windows_antivirus, windows_antivirus_spec,
};
use crate::disk::{
    linux_disk_encryption, linux_disk_spec, macos_disk_encryption, macos_disk_spec,
    windows_disk_encryption, windows_disk_spec,
};
use crate::screenlock::{
    linux_lock_spec, linux_screen_lock, macos_lock_spec, macos_screen_lock, power_settings_of,
    windows_lock_spec, windows_screen_lock,
};

verus! {

/// What one antivirus probe run captured.
pub enum AntivirusEvidence {
    /// The platform is unrecognised; no process was run.
    NotProbed,
    /// Windows: the registered-antivirus product listing.
    Windows { product_listing: Option<Vec<u8>> },
    /// macOS: the outputs of the sequential metadata-store queries.
    MacOs { query_outputs: Vec<Option<Vec<u8>>> },
    /// Linux: the running-services listing.
    Linux { service_listing: Option<Vec<u8>> },
}

/// What one disk-encryption probe run captured.
pub enum DiskEncryptionEvidence {
    NotProbed,
    /// Windows: the BitLocker protection-status read.
    Windows { status: Option<Vec<u8>> },
    /// macOS: the root-volume metadata dump.
    MacOs { volume_info: Option<Vec<u8>> },
    /// Linux: the mount table, then the block-device type listing.
    Linux { mounts: Option<Vec<u8>>, block_types: Option<Vec<u8>> },
}

/// What one screen-lock probe run captured.
pub enum ScreenLockEvidence {
    NotProbed,
    /// Windows: the power-settings JSON (fields "AC", "DC", "HasBattery").
    Windows { power_settings: Option<Vec<u8>> },
    /// macOS: the lock status, the screensaver idle time, and the custom
    /// power-profile dump.
    MacOs {
        status: Option<Vec<u8>>,
        screensaver: Option<Vec<u8>>,
        power_profile: Option<Vec<u8>>,
    },
    /// Linux: the session environment read, the installed session binaries
    /// (captured only for the "awesome" fallback), and the three
    /// configuration queries.
    Linux {
        env_out: Option<Vec<u8>>,
        sessions: Option<Vec<u8>>,
        lock_enabled: Option<Vec<u8>>,
        idle_delay: Option<Vec<u8>>,
        lock_delay: Option<Vec<u8>>,
    },
}

/// The antivirus finding an evidence value denotes.
pub open spec fn antivirus_outcome(e: AntivirusEvidence) -> Option<Seq<u8>> {
    match e {
        AntivirusEvidence::NotProbed => Option::None,
        AntivirusEvidence::Windows { product_listing } => match product_listing {
            Option::Some(o) => windows_antivirus_spec(o@),
            Option::None => Option::None,
        },
        AntivirusEvidence::MacOs { query_outputs } => macos_antivirus_spec(
            query_outputs.deep_view(),
        ),
        AntivirusEvidence::Linux { service_listing } => match service_listing {
            Option::Some(o) => linux_antivirus_spec(o@),
            Option::None => Option::None,
        },
    }
}

/// The disk-encryption finding an evidence value denotes.
pub open spec fn disk_encryption_outcome(e: DiskEncryptionEvidence) -> Option<Seq<u8>> {
    match e {
        DiskEncryptionEvidence::NotProbed => Option::None,
        DiskEncryptionEvidence::Windows { status } => match status {
            Option::Some(o) => windows_disk_spec(o@),
            Option::None => Option::None,
        },
        DiskEncryptionEvidence::MacOs { volume_info } => match volume_info {
            Option::Some(o) => macos_disk_spec(o@),
            Option::None => Option::None,
        },
        DiskEncryptionEvidence::Linux { mounts, block_types } => linux_disk_spec(
            mounts.deep_view(),
            block_types.deep_view(),
        ),
    }
}

/// The screen-lock timeout an evidence value denotes.  The Windows arm
/// goes through the named result of the trusted JSON decoding
/// (`power_settings_of`), so it too is a function of the captured bytes.
pub open spec fn screen_lock_outcome(e: ScreenLockEvidence) -> Option<u32> {
    match e {
        ScreenLockEvidence::NotProbed => Option::None,
        ScreenLockEvidence::Windows { power_settings } => match power_settings {
            Option::Some(o) => match power_settings_of(o@) {
                Option::Some(s) => windows_lock_spec(s.0, s.1, s.2),
                Option::None => Option::None,
            },
            Option::None => Option::None,
        },
        ScreenLockEvidence::MacOs { status, screensaver, power_profile } => match (
            status,
            screensaver,
            power_profile,
        ) {
            (Option::Some(st), Option::Some(sv), Option::Some(pp)) => macos_lock_spec(
                st@,
                sv@,
                pp@,
            ),
            _ => Option::None,
        },
        ScreenLockEvidence::Linux { env_out, sessions, lock_enabled, idle_delay, lock_delay } => linux_lock_spec(
            env_out.deep_view(),
            sessions.deep_view(),
            lock_enabled.deep_view(),
            idle_delay.deep_view(),
            lock_delay.deep_view(),
        ),
    }
}

fn opt_ref<'a>(o: &'a Option<Vec<u8>>) -> (r: Option<&'a Vec<u8>>)
    ensures
        r.deep_view() == o.deep_view(),
{
    match o {
        Option::Some(v) => Option::Some(v),
        Option::None => Option::None,
    }
}

/// Interprets one antivirus probe's evidence.
pub fn check_antivirus(e: &AntivirusEvidence) -> (r: Option<Vec<u8>>)
    ensures
        r.deep_view() == antivirus_outcome(*e),
{
    match e {
        AntivirusEvidence::NotProbed => Option::None,
        AntivirusEvidence::Windows { product_listing } => match product_listing {
            Option::Some(o) => windows_antivirus(o.as_slice()),
            Option::None => Option::None,
        },
        AntivirusEvidence::MacOs { query_outputs } => macos_antivirus(query_outputs),
        AntivirusEvidence::Linux { service_listing } => match service_listing {
            Option::Some(o) => linux_antivirus(o.as_slice()),
            Option::None => Option::None,
        },
    }
}

/// Interprets one disk-encryption probe's evidence.
pub fn check_disk_encryption(e: &DiskEncryptionEvidence) -> (r: Option<Vec<u8>>)
    ensures
        r.deep_view() == disk_encryption_outcome(*e),
{
    match e {
        DiskEncryptionEvidence::NotProbed => Option::None,
        DiskEncryptionEvidence::Windows { status } => match status {
            Option::Some(o) => windows_disk_encryption(o.as_slice()),
            Option::None => Option::None,
        },
        DiskEncryptionEvidence::MacOs { volume_info } => match volume_info {
            Option::Some(o) => macos_disk_encryption(o.as_slice()),
            Option::None => Option::None,
        },
        DiskEncryptionEvidence::Linux { mounts, block_types } => linux_disk_encryption(
            opt_ref(mounts),
            opt_ref(block_types),
        ),
    }
}

/// Interprets one screen-lock probe's evidence.
pub fn check_screen_lock(e: &ScreenLockEvidence) -> (r: Option<u32>)
    ensures
        r == screen_lock_outcome(*e),
{
    match e {
        ScreenLockEvidence::NotProbed => Option::None,
        ScreenLockEvidence::Windows { power_settings } => match power_settings {
            Option::Some(o) => windows_screen_lock(o.as_slice()),
            Option::None => Option::None,
        },
        ScreenLockEvidence::MacOs { status, screensaver, power_profile } => match (
            status,
            screensaver,
            power_profile,
        ) {
            (Option::Some(st), Option::Some(sv), Option::Some(pp)) => macos_screen_lock(
                st.as_slice(),
                sv.as_slice(),
                pp.as_slice(),
            ),
            _ => Option::None,
        },
        ScreenLockEvidence::Linux { env_out, sessions, lock_enabled, idle_delay, lock_delay } => {
            linux_screen_lock(
                opt_ref(env_out),
                opt_ref(sessions),
                opt_ref(lock_enabled),
                opt_ref(idle_delay),
                opt_ref(lock_delay),
            )
        },
    }
}

/// A point-in-time security-posture snapshot: three independent optional
/// findings, where absence covers "not installed", "misconfigured" and
/// "could not determine" alike.
#[derive(Clone, Debug)]
pub struct SecurityInfo {
    pub antivirus: Option<Vec<u8>>,
    pub disk_encryption: Option<Vec<u8>>,
    pub screen_lock: Option<u32>,
}

/// Runs the three probes over their evidence and assembles the snapshot.
pub fn get_security_info(
    av: &AntivirusEvidence,
    de: &DiskEncryptionEvidence,
    sl: &ScreenLockEvidence,
) -> (r: SecurityInfo)
    ensures
        r.antivirus.deep_view() == antivirus_outcome(*av),
        r.disk_encryption.deep_view() == disk_encryption_outcome(*de),
        r.screen_lock == screen_lock_outcome(*sl),
{
    let antivirus = check_antivirus(av);
    let disk_encryption = check_disk_encryption(de);
    let screen_lock = check_screen_lock(sl);
    SecurityInfo { antivirus, disk_encryption, screen_lock }
}

/// Law: each probe's finding is a function of the captured evidence alone —
/// equal evidence gives equal findings, so running a probe (or assembling
/// the whole snapshot) twice over identical captured outputs yields
/// identical results: the library holds no state across calls.  The
/// Windows screen-lock arm is covered through `power_settings_of`, the
/// named result of its deterministic JSON decode.
pub proof fn lemma_probes_deterministic(
    av_a: AntivirusEvidence,
    av_b: AntivirusEvidence,
    de_a: DiskEncryptionEvidence,
    de_b: DiskEncryptionEvidence,
    sl_a: ScreenLockEvidence,
    sl_b: ScreenLockEvidence,
)
    requires
        av_a == av_b,
        de_a == de_b,
        sl_a == sl_b,
    ensures
        antivirus_outcome(av_a) == antivirus_outcome(av_b),
        disk_encryption_outcome(de_a) == disk_encryption_outcome(de_b),
        screen_lock_outcome(sl_a) == screen_lock_outcome(sl_b),
{
}

/// Law: when nothing was probed — as the dispatcher arranges for an
/// unrecognised platform — every field of the snapshot is absent.
pub proof fn lemma_not_probed_absent()
    ensures
        antivirus_outcome(AntivirusEvidence::NotProbed) is None,
        disk_encryption_outcome(DiskEncryptionEvidence::NotProbed) is None,
        screen_lock_outcome(ScreenLockEvidence::NotProbed) is None,
{
}

} // verus!
