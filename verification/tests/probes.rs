use bruma::antivirus::{linux_antivirus, macos_antivirus, windows_antivirus};
use bruma::disk::{linux_disk_encryption, macos_disk_encryption, windows_disk_encryption};
use bruma::platform::Platform;
use bruma::posture::{
    check_antivirus, check_disk_encryption, check_screen_lock, get_security_info,
    AntivirusEvidence, DiskEncryptionEvidence, ScreenLockEvidence,
};

#[test]
fn windows_antivirus_filters_header_and_blanks() {
    let out = b"DisplayName\nDisplayName\nDefender\n\n  ";
    assert_eq!(windows_antivirus(out), Some(b"Defender".to_vec()));
}

#[test]
fn windows_antivirus_header_only_is_absent() {
    let out = b"DisplayName\n\n   \n";
    assert_eq!(windows_antivirus(out), None);
}

#[test]
fn windows_antivirus_joins_in_enumeration_order() {
    let out = b"DisplayName\r\nWindows Defender\r\nAcme AV\r\n";
    assert_eq!(
        windows_antivirus(out),
        Some(b"Windows Defender, Acme AV".to_vec())
    );
}

#[test]
fn windows_antivirus_header_match_is_case_insensitive() {
    let out = b"displayname\nDEFENDER\n";
    assert_eq!(windows_antivirus(out), Some(b"DEFENDER".to_vec()));
}

#[test]
fn macos_antivirus_first_nonempty_query_wins() {
    let outputs = vec![
        Some(b"".to_vec()),
        Some(b"entry\n".to_vec()),
        Some(b"".to_vec()),
    ];
    assert_eq!(
        macos_antivirus(&outputs),
        Some(b"XProtect/MRT (Built-in macOS protection)".to_vec())
    );
}

#[test]
fn macos_antivirus_all_empty_is_absent() {
    let outputs = vec![Some(b"".to_vec()), Some(b"".to_vec())];
    assert_eq!(macos_antivirus(&outputs), None);
}

#[test]
fn macos_antivirus_failed_query_aborts() {
    let outputs = vec![Some(b"".to_vec()), None, Some(b"entry".to_vec())];
    assert_eq!(macos_antivirus(&outputs), None);
}

#[test]
fn linux_antivirus_matches_allow_list_case_insensitively() {
    let out = b"  clamav-daemon.service loaded active running ClamAV\ncron.service loaded\n  Sophos.service running\n";
    assert_eq!(
        linux_antivirus(out),
        Some(b"clamav-daemon.service loaded active running ClamAV, Sophos.service running".to_vec())
    );
}

#[test]
fn linux_antivirus_no_match_is_absent() {
    let out = b"cron.service loaded active running\nsshd.service loaded\n";
    assert_eq!(linux_antivirus(out), None);
}

#[test]
fn windows_disk_status_one_is_bitlocker() {
    assert_eq!(windows_disk_encryption(b"1"), Some(b"BitLocker".to_vec()));
    assert_eq!(windows_disk_encryption(b" 1 \r\n"), Some(b"BitLocker".to_vec()));
}

#[test]
fn windows_disk_status_seven_is_used_space_only() {
    assert_eq!(
        windows_disk_encryption(b"7\r\n"),
        Some(b"BitLocker: only space used".to_vec())
    );
}

#[test]
fn windows_disk_other_status_is_absent() {
    assert_eq!(windows_disk_encryption(b""), None);
    assert_eq!(windows_disk_encryption(b"0"), None);
    assert_eq!(windows_disk_encryption(b"2"), None);
    assert_eq!(windows_disk_encryption(b"17"), None);
}

#[test]
fn macos_disk_filevault_marker() {
    let out = b"   Volume Name: Macintosh HD\n   FileVault: Yes\n";
    assert_eq!(macos_disk_encryption(out), Some(b"FileVault".to_vec()));
    assert_eq!(macos_disk_encryption(b"FileVault: No\n"), None);
}

#[test]
fn linux_disk_ecryptfs_short_circuits_block_scan() {
    let mounts = b"/home/user/.Private on /home/user type ecryptfs (rw)".to_vec();
    let with_crypt = b"disk\ncrypt\npart\n".to_vec();
    let without_crypt = b"disk\npart\n".to_vec();
    // the block listing is never consulted: same result whatever it holds
    assert_eq!(
        linux_disk_encryption(Some(&mounts), Some(&with_crypt)),
        Some(b"ecryptfs".to_vec())
    );
    assert_eq!(
        linux_disk_encryption(Some(&mounts), Some(&without_crypt)),
        Some(b"ecryptfs".to_vec())
    );
    assert_eq!(
        linux_disk_encryption(Some(&mounts), None),
        Some(b"ecryptfs".to_vec())
    );
}

#[test]
fn linux_disk_luks_from_block_listing() {
    let mounts = b"/dev/sda1 on / type ext4 (rw)".to_vec();
    let blocks = b"TYPE\ndisk\ncrypt\n".to_vec();
    assert_eq!(
        linux_disk_encryption(Some(&mounts), Some(&blocks)),
        Some(b"LUKS".to_vec())
    );
}

#[test]
fn linux_disk_nothing_found_is_absent() {
    let mounts = b"/dev/sda1 on / type ext4 (rw)".to_vec();
    let blocks = b"TYPE\ndisk\npart\n".to_vec();
    assert_eq!(linux_disk_encryption(Some(&mounts), Some(&blocks)), None);
    assert_eq!(linux_disk_encryption(None, Some(&blocks)), None);
    assert_eq!(linux_disk_encryption(Some(&mounts), None), None);
}

#[test]
fn unknown_platform_selects_unknown() {
    assert_eq!(Platform::select(b"windows"), Platform::Windows);
    assert_eq!(Platform::select(b"macos"), Platform::MacOs);
    assert_eq!(Platform::select(b"linux"), Platform::Linux);
    assert_eq!(Platform::select(b"beos"), Platform::Unknown);
    assert_eq!(Platform::select(b""), Platform::Unknown);
    assert_eq!(Platform::select(b"Windows"), Platform::Unknown);
}

#[test]
fn unknown_platform_posture_is_all_absent() {
    let info = get_security_info(
        &AntivirusEvidence::NotProbed,
        &DiskEncryptionEvidence::NotProbed,
        &ScreenLockEvidence::NotProbed,
    );
    assert_eq!(info.antivirus, None);
    assert_eq!(info.disk_encryption, None);
    assert_eq!(info.screen_lock, None);
}

#[test]
fn probes_repeat_identically_on_identical_evidence() {
    let av = AntivirusEvidence::Windows {
        product_listing: Some(b"DisplayName\nDefender\n".to_vec()),
    };
    let de = DiskEncryptionEvidence::Linux {
        mounts: Some(b"ecryptfs".to_vec()),
        block_types: None,
    };
    let sl = ScreenLockEvidence::MacOs {
        status: Some(b"screenLock delay is immediate".to_vec()),
        screensaver: Some(b"600\n".to_vec()),
        power_profile: Some(b"Battery Power:\n displaysleep 5\nAC Power:\n displaysleep 15\n".to_vec()),
    };
    let first = (
        check_antivirus(&av),
        check_disk_encryption(&de),
        check_screen_lock(&sl),
    );
    let second = (
        check_antivirus(&av),
        check_disk_encryption(&de),
        check_screen_lock(&sl),
    );
    assert_eq!(first, second);
    assert_eq!(first.0, Some(b"Defender".to_vec()));
    assert_eq!(first.1, Some(b"ecryptfs".to_vec()));
    assert_eq!(first.2, Some(15));
}

#[test]
fn windows_screen_lock_evidence_decodes_json() {
    let sl = ScreenLockEvidence::Windows {
        power_settings: Some(br#"{"AC":"0xb40","DC":"0x0","HasBattery":false}"#.to_vec()),
    };
    assert_eq!(check_screen_lock(&sl), Some(48));
    let bad = ScreenLockEvidence::Windows {
        power_settings: Some(b"not json".to_vec()),
    };
    assert_eq!(check_screen_lock(&bad), None);
}

#[test]
fn evidence_with_failed_captures_is_absent() {
    assert_eq!(
        check_antivirus(&AntivirusEvidence::Windows { product_listing: None }),
        None
    );
    assert_eq!(
        check_disk_encryption(&DiskEncryptionEvidence::Windows { status: None }),
        None
    );
    assert_eq!(
        check_screen_lock(&ScreenLockEvidence::Windows { power_settings: None }),
        None
    );
    assert_eq!(
        check_screen_lock(&ScreenLockEvidence::MacOs {
            status: Some(b"".to_vec()),
            screensaver: None,
            power_profile: Some(b"".to_vec()),
        }),
        None
    );
}
