//! Antivirus detection: parsers for the three platform strategies.
//!
//! Each function interprets the already-captured output of one platform
//! utility; a `None` result means "no protection detected", which callers
//! cannot distinguish from a failed capture by design.

use vstd::prelude::*;
use vstd::slice::slice_to_vec;
use crate::text::{
    bytes_of, contains_bytes, contains_seq, eq_bytes, join_bytes, join_sep, lower_bytes,
    split_lines, split_lines_vec, to_lower_vec, trim_bytes, trim_slice,
};

verus! {

/// A line of the product listing counts as a product name when, after
/// trimming, it is non-empty and is not the column header (compared
/// case-insensitively).
pub open spec fn windows_av_keep(l: Seq<u8>) -> bool {
    trim_bytes(l).len() > 0 && lower_bytes(trim_bytes(l)) != lower_bytes(bytes_of("DisplayName"))
}

/// The trimmed product names of a registered-antivirus listing, in
/// enumeration order.
pub open spec fn windows_av_names(lines: Seq<Seq<u8>>) -> Seq<Seq<u8>>
    decreases lines.len(),
{
    if lines.len() == 0 {
        Seq::empty()
    } else {
        let pre = windows_av_names(lines.drop_last());
        if windows_av_keep(lines.last()) {
            pre.push(trim_bytes(lines.last()))
        } else {
            pre
        }
    }
}

/// What the Windows antivirus probe reports for a given product listing:
/// the kept names joined by ", ", or `None` when none remain.
pub open spec fn windows_antivirus_spec(out: Seq<u8>) -> Option<Seq<u8>> {
    let names = windows_av_names(split_lines(out));
    if names.len() == 0 {
        None
    } else {
        Some(join_sep(names, bytes_of(", ")))
    }
}

/// Parses the registered-antivirus product listing: drops the header line
/// and blank lines, trims the rest, and joins the names with ", ".
pub fn windows_antivirus(out: &[u8]) -> (r: Option<Vec<u8>>)
    ensures
        r.deep_view() == windows_antivirus_spec(out@),
{
    let lines = split_lines_vec(out);
    let mut names: Vec<Vec<u8>> = Vec::new();
    let n = lines.len();
    let mut i: usize = 0;
    while i < n
        invariant
            0 <= i <= n,
            n == lines@.len(),
            lines.deep_view() == split_lines(out@),
            names.deep_view() == windows_av_names(lines.deep_view().take(i as int)),
        decreases n - i,
    {
        let ghost old_names = names.deep_view();
        let t = trim_slice(lines[i].as_slice());
        proof {
            assert(lines@[i as int]@ == lines.deep_view()[i as int]);
        }
        let low = to_lower_vec(t);
        let low_header = to_lower_vec("DisplayName".as_bytes());
        if t.len() > 0 && !eq_bytes(low.as_slice(), low_header.as_slice()) {
            names.push(slice_to_vec(t));
            proof {
                assert(names.deep_view() =~~= old_names.push(trim_bytes(
                    lines.deep_view()[i as int],
                )));
            }
        }
        proof {
            let ldv = lines.deep_view();
            assert(ldv.take(i as int + 1).drop_last() =~~= ldv.take(i as int));
            assert(ldv.take(i as int + 1).last() == ldv[i as int]);
        }
        i += 1;
    }
    proof {
        assert(lines.deep_view().take(n as int) =~~= lines.deep_view());
    }
    if names.len() == 0 {
        None
    } else {
        Some(join_bytes(&names, ", ".as_bytes()))
    }
}

/// The constant label reported when the built-in macOS protection subsystem
/// leaves any trace in its metadata store.
pub open spec fn macos_av_label() -> Seq<u8> {
    bytes_of("XProtect/MRT (Built-in macOS protection)")
}

/// What the macOS antivirus probe reports given the captured outputs of its
/// sequential metadata queries (`None` in the sequence marks a query whose
/// process could not be run).  The first non-empty output decides; a failed
/// query aborts the whole probe.
pub open spec fn macos_antivirus_spec(outs: Seq<Option<Seq<u8>>>) -> Option<Seq<u8>>
    decreases outs.len(),
{
    if outs.len() == 0 {
        None
    } else {
        match outs[0] {
            Option::None => Option::None,
            Option::Some(o) => if o.len() > 0 {
                Some(macos_av_label())
            } else {
                macos_antivirus_spec(outs.drop_first())
            },
        }
    }
}

/// Walks the captured query outputs in order and reports the built-in
/// protection label at the first non-empty one.
pub fn macos_antivirus(outputs: &Vec<Option<Vec<u8>>>) -> (r: Option<Vec<u8>>)
    ensures
        r.deep_view() == macos_antivirus_spec(outputs.deep_view()),
{
    let n = outputs.len();
    proof {
        assert(outputs.deep_view().skip(0) =~~= outputs.deep_view());
    }
    let mut i: usize = 0;
    while i < n
        invariant
            0 <= i <= n,
            n == outputs@.len(),
            macos_antivirus_spec(outputs.deep_view()) == macos_antivirus_spec(
                outputs.deep_view().skip(i as int),
            ),
        decreases n - i,
    {
        proof {
            let odv = outputs.deep_view();
            assert(odv.skip(i as int).drop_first() =~~= odv.skip(i as int + 1));
            assert(odv.skip(i as int)[0] == odv[i as int]);
        }
        match &outputs[i] {
            Option::None => {
                return None;
            },
            Option::Some(o) => {
                if o.len() > 0 {
                    return Some(slice_to_vec("XProtect/MRT (Built-in macOS protection)".as_bytes()));
                }
            },
        }
        i += 1;
    }
    proof {
        assert(outputs.deep_view().skip(n as int) =~~= Seq::<Option<Seq<u8>>>::empty());
    }
    None
}

/// A running-services line matches when its lower-cased text mentions any
/// entry of the fixed allow-list of antivirus product fragments.
pub open spec fn linux_av_line_matches(l: Seq<u8>) -> bool {
    let low = lower_bytes(l);
    contains_seq(low, bytes_of("clamav")) || contains_seq(low, bytes_of("sophos")) || contains_seq(
        low,
        bytes_of("eset"),
    ) || contains_seq(low, bytes_of("comodo")) || contains_seq(low, bytes_of("avg"))
        || contains_seq(low, bytes_of("avast")) || contains_seq(low, bytes_of("bitdefender"))
}

/// The trimmed matching lines of a running-services listing, in order.
pub open spec fn linux_av_names(lines: Seq<Seq<u8>>) -> Seq<Seq<u8>>
    decreases lines.len(),
{
    if lines.len() == 0 {
        Seq::empty()
    } else {
        let pre = linux_av_names(lines.drop_last());
        if linux_av_line_matches(lines.last()) {
            pre.push(trim_bytes(lines.last()))
        } else {
            pre
        }
    }
}

/// What the Linux antivirus probe reports for a given services listing.
pub open spec fn linux_antivirus_spec(out: Seq<u8>) -> Option<Seq<u8>> {
    let names = linux_av_names(split_lines(out));
    if names.len() == 0 {
        None
    } else {
        Some(join_sep(names, bytes_of(", ")))
    }
}

fn linux_av_line_matches_exec(l: &[u8]) -> (r: bool)
    ensures
        r == linux_av_line_matches(l@),
{
    let low = to_lower_vec(l);
    let low = low.as_slice();
    contains_bytes(low, "clamav".as_bytes()) || contains_bytes(low, "sophos".as_bytes())
        || contains_bytes(low, "eset".as_bytes()) || contains_bytes(low, "comodo".as_bytes())
        || contains_bytes(low, "avg".as_bytes()) || contains_bytes(low, "avast".as_bytes())
        || contains_bytes(low, "bitdefender".as_bytes())
}

/// Filters a running-services listing against the fixed allow-list of known
/// antivirus product fragments and joins the matching lines with ", ".
pub fn linux_antivirus(out: &[u8]) -> (r: Option<Vec<u8>>)
    ensures
        r.deep_view() == linux_antivirus_spec(out@),
{
    let lines = split_lines_vec(out);
    let mut names: Vec<Vec<u8>> = Vec::new();
    let n = lines.len();
    let mut i: usize = 0;
    while i < n
        invariant
            0 <= i <= n,
            n == lines@.len(),
            lines.deep_view() == split_lines(out@),
            names.deep_view() == linux_av_names(lines.deep_view().take(i as int)),
        decreases n - i,
    {
        let ghost old_names = names.deep_view();
        proof {
            assert(lines@[i as int]@ == lines.deep_view()[i as int]);
        }
        if linux_av_line_matches_exec(lines[i].as_slice()) {
            let t = trim_slice(lines[i].as_slice());
            names.push(slice_to_vec(t));
            proof {
                assert(names.deep_view() =~~= old_names.push(trim_bytes(
                    lines.deep_view()[i as int],
                )));
            }
        }
        proof {
            let ldv = lines.deep_view();
            assert(ldv.take(i as int + 1).drop_last() =~~= ldv.take(i as int));
            assert(ldv.take(i as int + 1).last() == ldv[i as int]);
        }
        i += 1;
    }
    proof {
        assert(lines.deep_view().take(n as int) =~~= lines.deep_view());
    }
    if names.len() == 0 {
        None
    } else {
        Some(join_bytes(&names, ", ".as_bytes()))
    }
}

} // verus!
