use bruma::screenlock::{
    get_display_sleep, linux_screen_lock, macos_screen_lock, parse_delay_seconds,
    parse_env_desktop, parse_lock_enabled, parse_power_hex_exec, resolve_desktop,
    screensaver_schema, session_schema, windows_screen_lock, windows_screen_lock_minutes,
};

#[test]
fn windows_ac_only_conversion() {
    // 0xb40 = 2880 seconds, no battery: 2880 / 60 = 48 minutes
    assert_eq!(windows_screen_lock_minutes(b"0xb40", b"0x0", false), Some(48));
}

#[test]
fn windows_zero_seconds_never_locks() {
    assert_eq!(windows_screen_lock_minutes(b"0x0", b"0x0", false), None);
    assert_eq!(windows_screen_lock_minutes(b"0", b"0", true), None);
}

#[test]
fn windows_battery_takes_maximum() {
    // battery present: max(0x3c = 60s, 0x78 = 120s) = 120s -> 2 minutes
    assert_eq!(windows_screen_lock_minutes(b"0x3c", b"0x78", true), Some(2));
    // no battery: the AC branch alone -> 1 minute
    assert_eq!(windows_screen_lock_minutes(b"0x3c", b"0x78", false), Some(1));
}

#[test]
fn windows_unparsable_setting_is_absent() {
    assert_eq!(windows_screen_lock_minutes(b"zz", b"0x0", false), None);
    assert_eq!(windows_screen_lock_minutes(b"0xb40", b"", false), None);
}

#[test]
fn windows_hex_parser_accepts_both_shapes() {
    assert_eq!(parse_power_hex_exec(b"0xb40"), Some(2880));
    assert_eq!(parse_power_hex_exec(b"b40"), Some(2880));
    assert_eq!(parse_power_hex_exec(b"0xFFFFFFFF"), Some(u32::MAX));
    assert_eq!(parse_power_hex_exec(b"0x100000000"), None);
    assert_eq!(parse_power_hex_exec(b""), None);
    assert_eq!(parse_power_hex_exec(b"0x"), None);
}

#[test]
fn windows_json_settings_decode() {
    let out = br#"{"AC":"0xb40","DC":"0x0","HasBattery":false}"#;
    assert_eq!(windows_screen_lock(out), Some(48));
}

#[test]
fn windows_json_battery_branch() {
    let out = br#"{"AC":"0x3c","DC":"0x78","HasBattery":true}"#;
    assert_eq!(windows_screen_lock(out), Some(2));
}

#[test]
fn windows_json_rejects_bad_documents() {
    assert_eq!(windows_screen_lock(b"not json"), None);
    assert_eq!(windows_screen_lock(br#"{"AC":"0xb40","DC":"0x0"}"#), None);
    assert_eq!(
        windows_screen_lock(br#"{"AC":42,"DC":"0x0","HasBattery":false}"#),
        None
    );
    assert_eq!(
        windows_screen_lock(br#"{"AC":"0x0","DC":"0x0","HasBattery":false}"#),
        None
    );
}

const PMSET_DUMP: &[u8] =
    b"Battery Power:\n displaysleep         5\n sleep                10\nAC Power:\n displaysleep         15\n sleep                30\n";

#[test]
fn macos_immediate_delay_takes_base_maximum() {
    // base = max(600s/60, max(15, 5)) = 15
    let status = b"screenLock delay is immediate";
    assert_eq!(macos_screen_lock(status, b"600\n", PMSET_DUMP), Some(15));
}

#[test]
fn macos_seconds_delay_adds_whole_minutes() {
    let status = b"screenLock delay is 120 seconds";
    assert_eq!(macos_screen_lock(status, b"600\n", PMSET_DUMP), Some(17));
}

#[test]
fn macos_lock_off_is_absent() {
    let status = b"screenLock is off";
    assert_eq!(macos_screen_lock(status, b"600\n", PMSET_DUMP), None);
}

#[test]
fn macos_other_status_text_is_absent() {
    let status = b"screenLock delay is unknown";
    assert_eq!(macos_screen_lock(status, b"600\n", PMSET_DUMP), None);
}

#[test]
fn macos_unparsable_screensaver_is_absent() {
    let status = b"screenLock delay is immediate";
    assert_eq!(macos_screen_lock(status, b"soon\n", PMSET_DUMP), None);
}

#[test]
fn macos_screensaver_can_dominate() {
    let status = b"screenLock delay is immediate";
    // 1800s / 60 = 30 minutes > both display-sleep delays
    assert_eq!(macos_screen_lock(status, b"1800\n", PMSET_DUMP), Some(30));
}

#[test]
fn display_sleep_reads_the_named_section() {
    assert_eq!(get_display_sleep(PMSET_DUMP, b"AC Power"), Some(15));
    assert_eq!(get_display_sleep(PMSET_DUMP, b"Battery Power"), Some(5));
    assert_eq!(get_display_sleep(PMSET_DUMP, b"UPS Power"), None);
}

#[test]
fn display_sleep_ignores_lines_before_the_section() {
    let dump = b" displaysleep 99\nAC Power:\n displaysleep 7\n";
    assert_eq!(get_display_sleep(dump, b"AC Power"), Some(7));
}

#[test]
fn env_desktop_is_the_second_equals_field() {
    assert_eq!(
        parse_env_desktop(b"XDG_SESSION_DESKTOP=ubuntu\n"),
        Some(b"ubuntu".to_vec())
    );
    assert_eq!(parse_env_desktop(b"no separator"), None);
    assert_eq!(
        parse_env_desktop(b"A=b=c"),
        Some(b"b".to_vec())
    );
}

#[test]
fn ubuntu_is_an_alias_of_gnome() {
    assert_eq!(resolve_desktop(b"ubuntu", None), Some(b"gnome".to_vec()));
}

#[test]
fn awesome_falls_back_to_gnome_when_a_gnome_session_exists() {
    let sessions = b"/usr/bin/gnome-session\n/usr/bin/openbox-session\n".to_vec();
    assert_eq!(
        resolve_desktop(b"awesome", Some(&sessions)),
        Some(b"gnome".to_vec())
    );
    let no_gnome = b"/usr/bin/openbox-session\n".to_vec();
    assert_eq!(
        resolve_desktop(b"awesome", Some(&no_gnome)),
        Some(b"awesome".to_vec())
    );
    assert_eq!(resolve_desktop(b"awesome", None), None);
}

#[test]
fn other_desktops_are_kept() {
    assert_eq!(resolve_desktop(b"xfce", None), Some(b"xfce".to_vec()));
}

#[test]
fn schema_paths_follow_the_resolved_desktop() {
    assert_eq!(
        screensaver_schema(b"gnome"),
        b"org.gnome.desktop.screensaver".to_vec()
    );
    assert_eq!(session_schema(b"gnome"), b"org.gnome.desktop.session".to_vec());
    assert_eq!(
        screensaver_schema(b"awesome"),
        b"org.awesome.desktop.screensaver".to_vec()
    );
}

#[test]
fn gsettings_values_parse_as_second_token() {
    assert!(parse_lock_enabled(b"true\n"));
    assert!(!parse_lock_enabled(b"false\n"));
    assert!(!parse_lock_enabled(b"'true'\n"));
    assert_eq!(parse_delay_seconds(b"uint32 300\n"), Some(300));
    assert_eq!(parse_delay_seconds(b"uint32\n"), None);
    assert_eq!(parse_delay_seconds(b"uint32 soon\n"), None);
}

#[test]
fn linux_lock_adds_delays_and_truncates() {
    let env_out = b"XDG_SESSION_DESKTOP=gnome\n".to_vec();
    let lock_enabled = b"true\n".to_vec();
    let idle = b"uint32 300\n".to_vec();
    let delay = b"uint32 30\n".to_vec();
    // (300 + 30) / 60 = 5 (the half minute is discarded)
    assert_eq!(
        linux_screen_lock(Some(&env_out), None, Some(&lock_enabled), Some(&idle), Some(&delay)),
        Some(5)
    );
}

#[test]
fn linux_lock_disabled_is_absent() {
    let env_out = b"XDG_SESSION_DESKTOP=gnome\n".to_vec();
    let lock_enabled = b"false\n".to_vec();
    let idle = b"uint32 300\n".to_vec();
    let delay = b"uint32 0\n".to_vec();
    assert_eq!(
        linux_screen_lock(Some(&env_out), None, Some(&lock_enabled), Some(&idle), Some(&delay)),
        None
    );
}

#[test]
fn linux_lock_failed_capture_is_absent() {
    let env_out = b"XDG_SESSION_DESKTOP=gnome\n".to_vec();
    let lock_enabled = b"true\n".to_vec();
    let idle = b"uint32 300\n".to_vec();
    assert_eq!(
        linux_screen_lock(Some(&env_out), None, Some(&lock_enabled), Some(&idle), None),
        None
    );
    assert_eq!(
        linux_screen_lock(None, None, Some(&lock_enabled), Some(&idle), Some(&idle)),
        None
    );
}

#[test]
fn linux_lock_zero_minutes_is_still_reported() {
    let env_out = b"XDG_SESSION_DESKTOP=gnome\n".to_vec();
    let lock_enabled = b"true\n".to_vec();
    let idle = b"uint32 20\n".to_vec();
    let delay = b"uint32 10\n".to_vec();
    assert_eq!(
        linux_screen_lock(Some(&env_out), None, Some(&lock_enabled), Some(&idle), Some(&delay)),
        Some(0)
    );
}

#[test]
fn linux_lock_awesome_needs_the_session_listing() {
    let env_out = b"XDG_SESSION_DESKTOP=awesome\n".to_vec();
    let sessions = b"/usr/bin/gnome-session\n".to_vec();
    let lock_enabled = b"true\n".to_vec();
    let idle = b"uint32 600\n".to_vec();
    let delay = b"uint32 0\n".to_vec();
    assert_eq!(
        linux_screen_lock(
            Some(&env_out),
            Some(&sessions),
            Some(&lock_enabled),
            Some(&idle),
            Some(&delay)
        ),
        Some(10)
    );
    // "awesome" with no captured session listing aborts the probe
    assert_eq!(
        linux_screen_lock(Some(&env_out), None, Some(&lock_enabled), Some(&idle), Some(&delay)),
        None
    );
}
