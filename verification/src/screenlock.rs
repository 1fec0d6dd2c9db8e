//! Screen-lock detection: the most intricate probe family.
//!
//! Windows reads the active power scheme's video-idle timeouts (hexadecimal,
//! AC and DC branches) and the battery presence; macOS combines a
//! screensaver idle time with per-power-source display-sleep delays and a
//! lock delay; Linux resolves the desktop session, then adds the session's
//! idle delay to the screensaver's lock delay.  Every conversion truncates
//! to whole minutes by integer division.

use vstd::prelude::*;
use vstd::slice::{slice_subrange, slice_to_vec};
use crate::text::{
    bytes_of, contains_bytes, contains_seq, eq_bytes, find_byte, find_byte_exec, lemma_find_byte,
    nth_token, nth_token_vec, parse_hex_u32_bytes, parse_hex_u32_spec, parse_u32_bytes,
    parse_u32_spec, split_lines, split_lines_vec, starts_with_bytes, starts_with_seq, trim_bytes,
    trim_slice,
};

verus! {

// ---------------------------------------------------------------------------
// Trusted declaration for the JSON decoding of the Windows power settings.
// ---------------------------------------------------------------------------
/// The power settings a captured Windows power-settings read decodes to:
/// the "AC" and "DC" string fields and the "HasBattery" boolean of the JSON
/// document, or `None` when the bytes are not such a document.  The value
/// depends on the bytes alone; it is pinned down only by the trusted item
/// below.
pub uninterp spec fn power_settings_of(out: Seq<u8>) -> Option<(Seq<u8>, Seq<u8>, bool)>;

/// Relies on `serde_json::from_slice` and `serde_json::Value::{get, as_str,
/// as_bool}`: decodes one JSON document from raw bytes and reads its "AC"
/// and "DC" string fields and its "HasBattery" boolean.  Decoding is a
/// function of the bytes alone, and it fails rather than panics on any
/// input.
#[verifier::external_body]
fn decode_power_settings(out: &[u8]) -> (r: Option<(Vec<u8>, Vec<u8>, bool)>)
    ensures
        r.deep_view() == power_settings_of(out@),
{
    let v: serde_json::Value = serde_json::from_slice(out).ok()?;
    let ac = v.get("AC")?.as_str()?.as_bytes().to_vec();
    let dc = v.get("DC")?.as_str()?.as_bytes().to_vec();
    let has_battery = v.get("HasBattery")?.as_bool()?;
    Some((ac, dc, has_battery))
}

// ---------------------------------------------------------------------------
// Windows
// ---------------------------------------------------------------------------
/// A power-setting value with its optional "0x" prefix removed.
pub open spec fn strip_hex_prefix(s: Seq<u8>) -> Seq<u8> {
    if starts_with_seq(s, bytes_of("0x")) {
        s.skip(bytes_of("0x").len() as int)
    } else {
        s
    }
}

/// A video-idle timeout in seconds, parsed from its hexadecimal text.
pub open spec fn parse_power_hex(s: Seq<u8>) -> Option<u32> {
    parse_hex_u32_spec(strip_hex_prefix(s))
}

pub fn parse_power_hex_exec(s: &[u8]) -> (r: Option<u32>)
    ensures
        r == parse_power_hex(s@),
{
    let prefix = "0x".as_bytes();
    if starts_with_bytes(s, prefix) {
        let rest = slice_subrange(s, prefix.len(), s.len());
        proof {
            assert(rest@ =~= s@.skip(bytes_of("0x").len() as int));
        }
        parse_hex_u32_bytes(rest)
    } else {
        parse_hex_u32_bytes(s)
    }
}

/// What the Windows screen-lock probe reports for given AC and DC video-idle
/// settings and battery presence: both settings must parse; the effective
/// timeout is their maximum when a battery is present, the AC value alone
/// otherwise; zero seconds means the screen never locks; anything else is
/// truncated to whole minutes.
pub open spec fn windows_lock_spec(ac: Seq<u8>, dc: Seq<u8>, has_battery: bool) -> Option<u32> {
    match (parse_power_hex(ac), parse_power_hex(dc)) {
        (Option::Some(a), Option::Some(d)) => {
            let t: u32 = if has_battery && d > a {
                d
            } else {
                a
            };
            if t == 0 {
                None
            } else {
                Some(t / 60)
            }
        },
        _ => None,
    }
}

/// Converts the two captured video-idle settings and the battery flag into
/// the screen-lock timeout in minutes.
pub fn windows_screen_lock_minutes(ac: &[u8], dc: &[u8], has_battery: bool) -> (r: Option<u32>)
    ensures
        r == windows_lock_spec(ac@, dc@, has_battery),
{
    let a = match parse_power_hex_exec(ac) {
        Option::Some(a) => a,
        Option::None => {
            return None;
        },
    };
    let d = match parse_power_hex_exec(dc) {
        Option::Some(d) => d,
        Option::None => {
            return None;
        },
    };
    let t: u32 = if has_battery && d > a {
        d
    } else {
        a
    };
    if t == 0 {
        None
    } else {
        Some(t / 60)
    }
}

/// Decodes the captured power-settings JSON (fields "AC", "DC",
/// "HasBattery") and applies the verified conversion: exactly the
/// conversion of whatever the document decodes to, absent when it decodes
/// to nothing.
pub fn windows_screen_lock(out: &[u8]) -> (r: Option<u32>)
    ensures
        r == (match power_settings_of(out@) {
            Option::Some(s) => windows_lock_spec(s.0, s.1, s.2),
            Option::None => Option::<u32>::None,
        }),
{
    match decode_power_settings(out) {
        Option::Some((ac, dc, has_battery)) => {
            proof {
                assert(ac.deep_view() =~= ac@);
                assert(dc.deep_view() =~= dc@);
            }
            windows_screen_lock_minutes(ac.as_slice(), dc.as_slice(), has_battery)
        },
        Option::None => None,
    }
}

// ---------------------------------------------------------------------------
// macOS
// ---------------------------------------------------------------------------
pub open spec fn opt_parse_u32(o: Option<Seq<u8>>) -> Option<u32> {
    match o {
        Option::Some(t) => parse_u32_spec(t),
        Option::None => Option::None,
    }
}

/// One pass over the power-profile lines: after the line naming the wanted
/// power source has been seen, the first line whose trimmed text starts
/// with the display-sleep key decides — its second whitespace-delimited
/// token is the delay in minutes.
pub open spec fn display_sleep_scan(lines: Seq<Seq<u8>>, seen: bool, mode: Seq<u8>) -> Option<u32>
    decreases lines.len(),
{
    if lines.len() == 0 {
        None
    } else {
        let l = lines[0];
        let now = seen || contains_seq(l, mode);
        if now && starts_with_seq(trim_bytes(l), bytes_of("displaysleep")) {
            opt_parse_u32(nth_token(l, 1))
        } else {
            display_sleep_scan(lines.drop_first(), now, mode)
        }
    }
}

/// The display-sleep delay (in minutes) of the named power source, read
/// from a custom power-profile dump.
pub open spec fn display_sleep_spec(power_profile: Seq<u8>, mode: Seq<u8>) -> Option<u32> {
    display_sleep_scan(split_lines(power_profile), false, mode)
}

/// Finds the named power-source section of the power-profile dump and
/// returns its display-sleep delay in minutes.
pub fn get_display_sleep(power_profile: &[u8], mode: &[u8]) -> (r: Option<u32>)
    ensures
        r == display_sleep_spec(power_profile@, mode@),
{
    let lines = split_lines_vec(power_profile);
    let n = lines.len();
    proof {
        assert(lines.deep_view().skip(0) =~~= lines.deep_view());
    }
    let mut seen = false;
    let mut i: usize = 0;
    while i < n
        invariant
            0 <= i <= n,
            n == lines@.len(),
            lines.deep_view() == split_lines(power_profile@),
            display_sleep_spec(power_profile@, mode@) == display_sleep_scan(
                lines.deep_view().skip(i as int),
                seen,
                mode@,
            ),
        decreases n - i,
    {
        proof {
            let ldv = lines.deep_view();
            assert(ldv.skip(i as int).drop_first() =~~= ldv.skip(i as int + 1));
            assert(ldv.skip(i as int)[0] == ldv[i as int]);
            assert(lines@[i as int]@ == ldv[i as int]);
        }
        let l = lines[i].as_slice();
        let now = seen || contains_bytes(l, mode);
        if now && starts_with_bytes(trim_slice(l), "displaysleep".as_bytes()) {
            let tok = nth_token_vec(l, 1);
            match tok {
                Option::Some(t) => {
                    proof {
                        assert(t.deep_view() =~= t@);
                    }
                    return parse_u32_bytes(t.as_slice());
                },
                Option::None => {
                    return None;
                },
            }
        }
        seen = now;
        i += 1;
    }
    proof {
        assert(lines.deep_view().skip(n as int) =~~= Seq::<Seq<u8>>::empty());
    }
    None
}

/// The capture of the fixed lock-delay pattern in the screen-lock status
/// text: the digits N of the first occurrence of
/// "screenLock delay is N seconds", if any.  The value depends on the
/// status text alone; it is pinned down only by the trusted item below.
pub uninterp spec fn lock_delay_capture(status: Seq<u8>) -> Option<Seq<u8>>;

/// Relies on `regex::bytes::Regex` (`new`, `captures`, `Captures::get`,
/// `Match::as_bytes`): matches the fixed pattern
/// "screenLock delay is (\d+) seconds" against the status text and hands
/// out capture group 1.  The pattern is a constant and compiles; the match
/// is a function of the status text alone.
#[verifier::external_body]
fn extract_lock_delay(status: &[u8]) -> (r: Option<Vec<u8>>)
    ensures
        r.deep_view() == lock_delay_capture(status@),
{
    let re = match regex::bytes::Regex::new("screenLock delay is (\\d+) seconds") {
        Ok(re) => re,
        Err(_) => return None,
    };
    match re.captures(status) {
        Some(caps) => caps.get(1).map(|m| m.as_bytes().to_vec()),
        None => None,
    }
}

/// What the macOS screen-lock probe reports, given the captured lock-status
/// text, the screensaver idle-time read and the power-profile dump.  An
/// administratively disabled lock is absent immediately; otherwise the base
/// timeout is the maximum of the screensaver idle minutes and the two
/// display-sleep delays; an "immediate" lock delay adds nothing, a delay of
/// N seconds adds N/60 minutes, and any other delay text yields an absent
/// result.  A sum beyond the `u32` range is reported as absent rather than
/// wrapped.
pub open spec fn macos_lock_spec(status: Seq<u8>, screensaver_out: Seq<u8>, power_profile: Seq<
    u8,
>) -> Option<u32> {
    if contains_seq(status, bytes_of("screenLock is off")) {
        None
    } else {
        match parse_u32_spec(trim_bytes(screensaver_out)) {
            Option::None => Option::None,
            Option::Some(idle_secs) => {
                let idle_min = idle_secs / 60;
                match (
                    display_sleep_spec(power_profile, bytes_of("AC Power")),
                    display_sleep_spec(power_profile, bytes_of("Battery Power")),
                ) {
                    (Option::Some(ac), Option::Some(batt)) => {
                        let hi = if batt > ac {
                            batt
                        } else {
                            ac
                        };
                        let base = if hi > idle_min {
                            hi
                        } else {
                            idle_min
                        };
                        if contains_seq(status, bytes_of("screenLock delay is immediate")) {
                            Some(base)
                        } else {
                            match lock_delay_capture(status) {
                                Option::Some(cap) => match parse_u32_spec(cap) {
                                    Option::Some(d) => if base + d / 60 <= u32::MAX {
                                        Some((base + d / 60) as u32)
                                    } else {
                                        None
                                    },
                                    Option::None => Option::None,
                                },
                                Option::None => Option::None,
                            }
                        }
                    },
                    _ => None,
                }
            },
        }
    }
}

/// Combines the three macOS delay sources into the screen-lock timeout in
/// minutes.
pub fn macos_screen_lock(status: &[u8], screensaver_out: &[u8], power_profile: &[u8]) -> (r:
    Option<u32>)
    ensures
        r == macos_lock_spec(status@, screensaver_out@, power_profile@),
{
    if contains_bytes(status, "screenLock is off".as_bytes()) {
        return None;
    }
    let idle_secs = match parse_u32_bytes(trim_slice(screensaver_out)) {
        Option::Some(v) => v,
        Option::None => {
            return None;
        },
    };
    let idle_min = idle_secs / 60;
    let ac = match get_display_sleep(power_profile, "AC Power".as_bytes()) {
        Option::Some(v) => v,
        Option::None => {
            return None;
        },
    };
    let batt = match get_display_sleep(power_profile, "Battery Power".as_bytes()) {
        Option::Some(v) => v,
        Option::None => {
            return None;
        },
    };
    let hi = if batt > ac {
        batt
    } else {
        ac
    };
    let base = if hi > idle_min {
        hi
    } else {
        idle_min
    };
    if contains_bytes(status, "screenLock delay is immediate".as_bytes()) {
        return Some(base);
    }
    let cap = match extract_lock_delay(status) {
        Option::Some(c) => c,
        Option::None => {
            return None;
        },
    };
    proof {
        assert(cap.deep_view() =~= cap@);
    }
    let delay_secs = match parse_u32_bytes(cap.as_slice()) {
        Option::Some(d) => d,
        Option::None => {
            return None;
        },
    };
    let delay_min = delay_secs / 60;
    if delay_min <= u32::MAX - base {
        Some(base + delay_min)
    } else {
        None
    }
}

// ---------------------------------------------------------------------------
// Linux
// ---------------------------------------------------------------------------
/// The desktop-session identifier read from an environment listing: the
/// text between the first and second "=" of the trimmed output.
pub open spec fn parse_env_desktop_spec(out: Seq<u8>) -> Option<Seq<u8>> {
    let t = trim_bytes(out);
    let i = find_byte(t, 61);
    if i == t.len() {
        None
    } else {
        let rest = t.skip(i + 1);
        Some(rest.take(find_byte(rest, 61)))
    }
}

pub fn parse_env_desktop(out: &[u8]) -> (r: Option<Vec<u8>>)
    ensures
        r.deep_view() == parse_env_desktop_spec(out@),
{
    let t = trim_slice(out);
    proof {
        lemma_find_byte(t@, 61);
    }
    let i = find_byte_exec(t, 61);
    if i == t.len() {
        None
    } else {
        let rest = slice_subrange(t, i + 1, t.len());
        proof {
            assert(rest@ =~= t@.skip(i as int + 1));
            lemma_find_byte(rest@, 61);
        }
        let j = find_byte_exec(rest, 61);
        let r = slice_to_vec(slice_subrange(rest, 0, j));
        proof {
            assert(r@ =~= rest@.take(j as int));
        }
        Some(r)
    }
}

/// The effective desktop name: "ubuntu" is an alias of "gnome"; "awesome"
/// falls back to "gnome" exactly when the installed session binaries
/// mention it (`None` marks a session listing that could not be captured,
/// which aborts the probe); every other identifier is kept.
pub open spec fn resolve_desktop_spec(desktop: Seq<u8>, sessions: Option<Seq<u8>>) -> Option<
    Seq<u8>,
> {
    if desktop == bytes_of("ubuntu") {
        Some(bytes_of("gnome"))
    } else if desktop == bytes_of("awesome") {
        match sessions {
            Option::None => Option::None,
            Option::Some(s) => if contains_seq(s, bytes_of("gnome")) {
                Some(bytes_of("gnome"))
            } else {
                Some(desktop)
            },
        }
    } else {
        Some(desktop)
    }
}

pub fn resolve_desktop(desktop: &[u8], sessions: Option<&Vec<u8>>) -> (r: Option<Vec<u8>>)
    ensures
        r.deep_view() == resolve_desktop_spec(desktop@, sessions.deep_view()),
{
    if eq_bytes(desktop, "ubuntu".as_bytes()) {
        Some(slice_to_vec("gnome".as_bytes()))
    } else if eq_bytes(desktop, "awesome".as_bytes()) {
        match sessions {
            Option::None => Option::None,
            Option::Some(s) => {
                proof {
                    assert(s.deep_view() =~= s@);
                }
                if contains_bytes(s.as_slice(), "gnome".as_bytes()) {
                    Some(slice_to_vec("gnome".as_bytes()))
                } else {
                    Some(slice_to_vec(desktop))
                }
            },
        }
    } else {
        Some(slice_to_vec(desktop))
    }
}

/// The screensaver configuration schema of a desktop.
pub open spec fn screensaver_schema_spec(desktop: Seq<u8>) -> Seq<u8> {
    bytes_of("org.") + desktop + bytes_of(".desktop.screensaver")
}

/// The session configuration schema of a desktop.
pub open spec fn session_schema_spec(desktop: Seq<u8>) -> Seq<u8> {
    bytes_of("org.") + desktop + bytes_of(".desktop.session")
}

pub fn screensaver_schema(desktop: &[u8]) -> (r: Vec<u8>)
    ensures
        r@ == screensaver_schema_spec(desktop@),
{
    let mut r = slice_to_vec("org.".as_bytes());
    crate::text::append_bytes(&mut r, desktop);
    crate::text::append_bytes(&mut r, ".desktop.screensaver".as_bytes());
    proof {
        assert(r@ =~= screensaver_schema_spec(desktop@));
    }
    r
}

pub fn session_schema(desktop: &[u8]) -> (r: Vec<u8>)
    ensures
        r@ == session_schema_spec(desktop@),
{
    let mut r = slice_to_vec("org.".as_bytes());
    crate::text::append_bytes(&mut r, desktop);
    crate::text::append_bytes(&mut r, ".desktop.session".as_bytes());
    proof {
        assert(r@ =~= session_schema_spec(desktop@));
    }
    r
}

/// The lock-enabled flag is set exactly when the trimmed query output is
/// the literal "true".
pub open spec fn lock_enabled_spec(out: Seq<u8>) -> bool {
    trim_bytes(out) == bytes_of("true")
}

pub fn parse_lock_enabled(out: &[u8]) -> (r: bool)
    ensures
        r == lock_enabled_spec(out@),
{
    eq_bytes(trim_slice(out), "true".as_bytes())
}

/// A gsettings delay value: the second whitespace-delimited token of the
/// trimmed output (the first is the type tag), parsed as seconds.
pub open spec fn delay_seconds_spec(out: Seq<u8>) -> Option<u32> {
    opt_parse_u32(nth_token(trim_bytes(out), 1))
}

pub fn parse_delay_seconds(out: &[u8]) -> (r: Option<u32>)
    ensures
        r == delay_seconds_spec(out@),
{
    let t = trim_slice(out);
    match nth_token_vec(t, 1) {
        Option::Some(tok) => {
            proof {
                assert(tok.deep_view() =~= tok@);
            }
            parse_u32_bytes(tok.as_slice())
        },
        Option::None => None,
    }
}

/// What the Linux screen-lock probe reports given the captured outputs of
/// its sub-queries, in their fixed order (`None` marks a capture whose
/// process could not be run, which aborts the probe): the session
/// identifier must resolve, the lock must be enabled, and the result is
/// (idle-delay + lock-delay) seconds truncated to whole minutes.  A sum
/// beyond the `u32` range is reported as absent rather than wrapped.
pub open spec fn linux_lock_spec(
    env_out: Option<Seq<u8>>,
    sessions: Option<Seq<u8>>,
    lock_enabled_out: Option<Seq<u8>>,
    idle_out: Option<Seq<u8>>,
    delay_out: Option<Seq<u8>>,
) -> Option<u32> {
    match env_out {
        Option::None => Option::None,
        Option::Some(e) => match parse_env_desktop_spec(e) {
            Option::None => Option::None,
            Option::Some(desktop) => match resolve_desktop_spec(desktop, sessions) {
                Option::None => Option::None,
                Option::Some(_) => match lock_enabled_out {
                    Option::None => Option::None,
                    Option::Some(le) => if !lock_enabled_spec(le) {
                        None
                    } else {
                        match (idle_out, delay_out) {
                            (Option::Some(io), Option::Some(lo)) => match (
                                delay_seconds_spec(io),
                                delay_seconds_spec(lo),
                            ) {
                                (Option::Some(idle), Option::Some(lock)) => if idle + lock
                                    <= u32::MAX {
                                    Some(((idle + lock) / 60) as u32)
                                } else {
                                    None
                                },
                                _ => None,
                            },
                            _ => None,
                        }
                    },
                },
            },
        },
    }
}

/// Combines the captured Linux sub-query outputs into the screen-lock
/// timeout in minutes.
pub fn linux_screen_lock(
    env_out: Option<&Vec<u8>>,
    sessions: Option<&Vec<u8>>,
    lock_enabled_out: Option<&Vec<u8>>,
    idle_out: Option<&Vec<u8>>,
    delay_out: Option<&Vec<u8>>,
) -> (r: Option<u32>)
    ensures
        r == linux_lock_spec(
            env_out.deep_view(),
            sessions.deep_view(),
            lock_enabled_out.deep_view(),
            idle_out.deep_view(),
            delay_out.deep_view(),
        ),
{
    let e = match env_out {
        Option::Some(e) => e,
        Option::None => {
            return None;
        },
    };
    proof {
        assert(e.deep_view() =~= e@);
    }
    let desktop = match parse_env_desktop(e.as_slice()) {
        Option::Some(d) => d,
        Option::None => {
            return None;
        },
    };
    proof {
        assert(desktop.deep_view() =~= desktop@);
    }
    match resolve_desktop(desktop.as_slice(), sessions) {
        Option::Some(_) => {},
        Option::None => {
            return None;
        },
    }
    let le = match lock_enabled_out {
        Option::Some(le) => le,
        Option::None => {
            return None;
        },
    };
    proof {
        assert(le.deep_view() =~= le@);
    }
    if !parse_lock_enabled(le.as_slice()) {
        return None;
    }
    let io = match idle_out {
        Option::Some(io) => io,
        Option::None => {
            return None;
        },
    };
    let lo = match delay_out {
        Option::Some(lo) => lo,
        Option::None => {
            return None;
        },
    };
    proof {
        assert(io.deep_view() =~= io@);
        assert(lo.deep_view() =~= lo@);
    }
    let idle = match parse_delay_seconds(io.as_slice()) {
        Option::Some(v) => v,
        Option::None => {
            return None;
        },
    };
    let lock = match parse_delay_seconds(lo.as_slice()) {
        Option::Some(v) => v,
        Option::None => {
            return None;
        },
    };
    if lock <= u32::MAX - idle {
        Some((idle + lock) / 60)
    } else {
        None
    }
}

} // verus!
