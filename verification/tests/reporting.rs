use bruma::credentials::{SupabaseCredentials, VaultCredentials};
use bruma::device::{
    device_id_from_hardware_profile, device_id_from_machine_files, device_id_from_serial_listing,
    DeviceInfo,
};
use bruma::report::{
    bearer_header, last_report_endpoint, report_endpoint, SecurityReport, SupabaseReport,
};

#[test]
fn serial_listing_takes_the_second_line() {
    assert_eq!(
        device_id_from_serial_listing(b"SerialNumber\r\nABC123\r\n\r\n"),
        b"ABC123".to_vec()
    );
    assert_eq!(device_id_from_serial_listing(b"SerialNumber"), b"unknown".to_vec());
    assert_eq!(device_id_from_serial_listing(b"SerialNumber\n   \n"), b"unknown".to_vec());
}

#[test]
fn hardware_profile_takes_the_fourth_token() {
    let out = b"Hardware:\n    Model Name: Mini\n    Serial Number (system): C02XYZ\n";
    assert_eq!(device_id_from_hardware_profile(out), b"C02XYZ".to_vec());
    assert_eq!(
        device_id_from_hardware_profile(b"no serial here\n"),
        b"unknown".to_vec()
    );
    assert_eq!(
        device_id_from_hardware_profile(b"Serial Number:\n"),
        b"unknown".to_vec()
    );
}

#[test]
fn machine_files_fall_back_in_order() {
    let primary = b"abcd-1234\n".to_vec();
    let fallback = b"ffff-0000\n".to_vec();
    assert_eq!(
        device_id_from_machine_files(Some(&primary), Some(&fallback)),
        b"abcd-1234".to_vec()
    );
    assert_eq!(
        device_id_from_machine_files(None, Some(&fallback)),
        b"ffff-0000".to_vec()
    );
    assert_eq!(device_id_from_machine_files(None, None), b"unknown".to_vec());
}

#[test]
fn device_info_keeps_its_fields() {
    let info = DeviceInfo::new(
        String::from("linux"),
        String::from("6.1"),
        String::from("abcd"),
    );
    assert_eq!(info.os, "linux");
    assert_eq!(info.version, "6.1");
    assert_eq!(info.device_id, "abcd");
}

#[test]
fn credentials_keep_their_fields() {
    let c = SupabaseCredentials::new(
        String::from("https://example.supabase.co"),
        String::from("key"),
    );
    assert_eq!(c.url, "https://example.supabase.co");
    assert_eq!(c.anon_key, "key");
    let v = VaultCredentials::new(String::from("salt"), String::from("hash"));
    assert_eq!(v.salt, "salt");
    assert_eq!(v.hashed_password, "hash");
}

#[test]
fn default_report_is_empty() {
    let r = SecurityReport::default();
    assert_eq!(r.antivirus, None);
    assert_eq!(r.disk_encryption, None);
    assert_eq!(r.screen_lock, None);
}

#[test]
fn report_flattening_fills_presence_flags() {
    let report = SecurityReport {
        antivirus: Some(b"Defender".to_vec()),
        disk_encryption: None,
        screen_lock: Some(48),
    };
    let flat = SupabaseReport::from_report(
        report,
        String::from("dev-1"),
        String::from("user@example.com"),
        String::from("User Name"),
        String::from("windows"),
        String::from("10"),
        String::from("2024-01-01 00:00:00"),
    );
    assert!(flat.antivirus_detected);
    assert_eq!(flat.antivirus_name, b"Defender".to_vec());
    assert!(!flat.disk_encrypted);
    assert_eq!(flat.encryption_type, b"".to_vec());
    assert!(flat.screen_lock_active);
    assert_eq!(flat.screen_lock_time, b"48".to_vec());
    assert_eq!(flat.device_id, "dev-1");
    assert_eq!(flat.operating_system, "windows");
}

#[test]
fn absent_screen_lock_reads_zero() {
    let flat = SupabaseReport::from_report(
        SecurityReport::default(),
        String::from("d"),
        String::from("e"),
        String::from("n"),
        String::from("os"),
        String::from("v"),
        String::from("t"),
    );
    assert!(!flat.screen_lock_active);
    assert_eq!(flat.screen_lock_time, b"0".to_vec());
}

#[test]
fn endpoints_are_assembled_exactly() {
    assert_eq!(
        report_endpoint(b"https://x.supabase.co", b"dev-1"),
        b"https://x.supabase.co/rest/v1/security_reports?device_id=eq.dev-1&on_conflict=user_email,device_id".to_vec()
    );
    assert_eq!(
        last_report_endpoint(b"https://x.supabase.co", b"dev-1", b"u@example.com"),
        b"https://x.supabase.co/rest/v1/security_reports?device_id=eq.dev-1&user_email=eq.u@example.com&order=last_check.desc&limit=1".to_vec()
    );
    assert_eq!(bearer_header(b"key"), b"Bearer key".to_vec());
}
