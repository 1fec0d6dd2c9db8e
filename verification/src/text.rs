//! Byte-level text helpers shared by the output parsers.
//!
//! Captured utility output is handled as raw bytes: every marker the probes
//! look for is plain ASCII, so matching, trimming and number parsing are
//! defined over `Seq<u8>` and proved against those definitions.

use vstd::prelude::*;
use vstd::slice::{slice_subrange, slice_to_vec};
use vstd::string::StringSliceAdditionalSpecFns;

verus! {

/// The ASCII whitespace bytes: space, tab, line feed, vertical tab, form
/// feed, carriage return.
pub open spec fn is_space_b(b: u8) -> bool {
    b == 32 || b == 9 || b == 10 || b == 11 || b == 12 || b == 13
}

pub open spec fn is_digit_b(b: u8) -> bool {
    48 <= b && b <= 57
}

/// ASCII lower-casing of one byte.
pub open spec fn lower_b(b: u8) -> u8 {
    if 65 <= b && b <= 90 {
        (b + 32) as u8
    } else {
        b
    }
}

pub open spec fn lower_bytes(s: Seq<u8>) -> Seq<u8> {
    Seq::new(s.len(), |i: int| lower_b(s[i]))
}

/// The UTF-8 bytes of a string literal; every marker this crate matches on
/// is ASCII, so these sequences are compared without decoding.
pub open spec fn bytes_of(s: &str) -> Seq<u8> {
    s.spec_bytes()
}

pub open spec fn trim_start_bytes(s: Seq<u8>) -> Seq<u8>
    decreases s.len(),
{
    if s.len() > 0 && is_space_b(s[0]) {
        trim_start_bytes(s.drop_first())
    } else {
        s
    }
}

pub open spec fn trim_end_bytes(s: Seq<u8>) -> Seq<u8>
    decreases s.len(),
{
    if s.len() > 0 && is_space_b(s.last()) {
        trim_end_bytes(s.drop_last())
    } else {
        s
    }
}

/// What `str::trim` leaves of a line, at the byte level.
pub open spec fn trim_bytes(s: Seq<u8>) -> Seq<u8> {
    trim_end_bytes(trim_start_bytes(s))
}

proof fn lemma_trim_start_at(s: Seq<u8>, i: int)
    requires
        0 <= i <= s.len(),
        forall|k: int| 0 <= k < i ==> is_space_b(s[k]),
        i == s.len() || !is_space_b(s[i]),
    ensures
        trim_start_bytes(s) == s.skip(i),
    decreases i,
{
    if i == 0 {
        assert(s.skip(0) =~= s);
    } else {
        lemma_trim_start_at(s.drop_first(), i - 1);
        assert(s.drop_first().skip(i - 1) =~= s.skip(i));
    }
}

proof fn lemma_trim_end_at(s: Seq<u8>, j: int)
    requires
        0 <= j <= s.len(),
        forall|k: int| j <= k < s.len() ==> is_space_b(s[k]),
        j == 0 || !is_space_b(s[j - 1]),
    ensures
        trim_end_bytes(s) == s.take(j),
    decreases s.len(),
{
    if j == s.len() {
        assert(s.take(j) =~= s);
    } else {
        assert(is_space_b(s.last()));
        lemma_trim_end_at(s.drop_last(), j);
        assert(s.drop_last().take(j) =~= s.take(j));
    }
}

pub fn is_space_exec(b: u8) -> (r: bool)
    ensures
        r == is_space_b(b),
{
    b == 32 || b == 9 || b == 10 || b == 11 || b == 12 || b == 13
}

/// Strips leading and trailing ASCII whitespace.
pub fn trim_slice<'a>(s: &'a [u8]) -> (r: &'a [u8])
    ensures
        r@ == trim_bytes(s@),
{
    let n = s.len();
    let mut i: usize = 0;
    while i < n && is_space_exec(s[i])
        invariant
            0 <= i <= n,
            n == s@.len(),
            forall|k: int| 0 <= k < i ==> is_space_b(s@[k]),
        decreases n - i,
    {
        i += 1;
    }
    proof {
        lemma_trim_start_at(s@, i as int);
    }
    if i == n {
        proof {
            assert(s@.skip(n as int) =~= Seq::<u8>::empty());
        }
        let r = slice_subrange(s, 0, 0);
        proof {
            assert(r@ =~= trim_bytes(s@));
        }
        return r;
    }
    let mut j: usize = n;
    while j > 0 && is_space_exec(s[j - 1])
        invariant
            i < j <= n || j == n,
            i < n,
            n == s@.len(),
            !is_space_b(s@[i as int]),
            forall|k: int| j <= k < n ==> is_space_b(s@[k]),
        decreases j,
    {
        proof {
            // the loop can never step past the non-space byte at index i
            assert(j - 1 > i || j - 1 == i);
        }
        j -= 1;
    }
    proof {
        assert(j > i);
        lemma_trim_end_at(s@.skip(i as int), j - i);
        assert(s@.skip(i as int).take(j - i) =~= s@.subrange(i as int, j as int));
    }
    slice_subrange(s, i, j)
}

/// Byte-for-byte equality of two slices.
pub fn eq_bytes(a: &[u8], b: &[u8]) -> (r: bool)
    ensures
        r == (a@ == b@),
{
    if a.len() != b.len() {
        return false;
    }
    let n = a.len();
    let mut k: usize = 0;
    while k < n
        invariant
            0 <= k <= n,
            n == a@.len() == b@.len(),
            forall|j: int| 0 <= j < k ==> a@[j] == b@[j],
        decreases n - k,
    {
        if a[k] != b[k] {
            return false;
        }
        k += 1;
    }
    proof {
        assert(a@ =~= b@);
    }
    true
}

/// `needle` occurs as a contiguous run starting at index `i` of `hay`.
pub open spec fn is_match_at(hay: Seq<u8>, needle: Seq<u8>, i: int) -> bool {
    0 <= i && i + needle.len() <= hay.len() && hay.subrange(i, i + needle.len()) == needle
}

/// `needle` occurs somewhere in `hay` (the byte-level `str::contains`).
pub open spec fn contains_seq(hay: Seq<u8>, needle: Seq<u8>) -> bool {
    exists|i: int| is_match_at(hay, needle, i)
}

pub open spec fn starts_with_seq(s: Seq<u8>, prefix: Seq<u8>) -> bool {
    is_match_at(s, prefix, 0)
}

fn match_at(hay: &[u8], needle: &[u8], i: usize) -> (r: bool)
    requires
        i + needle@.len() <= hay@.len(),
    ensures
        r == is_match_at(hay@, needle@, i as int),
{
    let n = needle.len();
    let hn = hay.len();
    let mut k: usize = 0;
    while k < n
        invariant
            0 <= k <= n,
            n == needle@.len(),
            hn == hay@.len(),
            i + n <= hn,
            forall|j: int| 0 <= j < k ==> hay@[i + j] == needle@[j],
        decreases n - k,
    {
        if hay[i + k] != needle[k] {
            proof {
                assert(hay@.subrange(i as int, i + n) != needle@) by {
                    assert(hay@.subrange(i as int, i + n)[k as int] == hay@[i + k]);
                }
            }
            return false;
        }
        k += 1;
    }
    proof {
        assert(hay@.subrange(i as int, i + n) =~= needle@);
    }
    true
}

/// Naive substring search; `r` holds exactly when `needle` occurs in `hay`.
pub fn contains_bytes(hay: &[u8], needle: &[u8]) -> (r: bool)
    ensures
        r == contains_seq(hay@, needle@),
{
    if needle.len() == 0 {
        proof {
            assert(hay@.subrange(0, 0) =~= needle@);
            assert(is_match_at(hay@, needle@, 0));
        }
        return true;
    }
    if needle.len() > hay.len() {
        proof {
            assert(forall|i: int| !is_match_at(hay@, needle@, i));
        }
        return false;
    }
    let hn = hay.len();
    let last = hn - needle.len();
    let mut i: usize = 0;
    while i <= last
        invariant
            0 <= i <= last + 1,
            hn == hay@.len(),
            last == hay@.len() - needle@.len(),
            1 <= needle@.len() <= hay@.len(),
            last < hn,
            forall|j: int| 0 <= j < i ==> !is_match_at(hay@, needle@, j),
        decreases last + 1 - i,
    {
        if match_at(hay, needle, i) {
            return true;
        }
        i += 1;
    }
    proof {
        assert(forall|j: int| !is_match_at(hay@, needle@, j));
    }
    false
}

pub fn starts_with_bytes(s: &[u8], prefix: &[u8]) -> (r: bool)
    ensures
        r == starts_with_seq(s@, prefix@),
{
    if prefix.len() > s.len() {
        return false;
    }
    match_at(s, prefix, 0)
}

/// Index of the first occurrence of `b` in `s`, or `s.len()` if absent.
pub open spec fn find_byte(s: Seq<u8>, b: u8) -> int
    decreases s.len(),
{
    if s.len() == 0 {
        0
    } else if s[0] == b {
        0
    } else {
        1 + find_byte(s.drop_first(), b)
    }
}

pub proof fn lemma_find_byte(s: Seq<u8>, b: u8)
    ensures
        0 <= find_byte(s, b) <= s.len(),
        find_byte(s, b) < s.len() ==> s[find_byte(s, b)] == b,
        forall|k: int| 0 <= k < find_byte(s, b) ==> s[k] != b,
    decreases s.len(),
{
    if s.len() > 0 && s[0] != b {
        lemma_find_byte(s.drop_first(), b);
        assert forall|k: int| 0 <= k < find_byte(s, b) implies s[k] != b by {
            if k > 0 {
                assert(s.drop_first()[k - 1] != b);
            }
        }
    }
}

pub fn find_byte_exec(s: &[u8], b: u8) -> (r: usize)
    ensures
        r == find_byte(s@, b),
{
    proof {
        lemma_find_byte(s@, b);
    }
    let n = s.len();
    let mut i: usize = 0;
    while i < n
        invariant
            0 <= i <= n,
            n == s@.len(),
            forall|k: int| 0 <= k < i ==> s@[k] != b,
            find_byte(s@, b) >= i,
        decreases n - i,
    {
        if s[i] == b {
            proof {
                lemma_find_byte_unique(s@, b, i as int);
            }
            return i;
        }
        proof {
            lemma_find_byte_step(s@, b, i as int);
        }
        i += 1;
    }
    n
}

proof fn lemma_find_byte_unique(s: Seq<u8>, b: u8, i: int)
    requires
        0 <= i < s.len(),
        s[i] == b,
        forall|k: int| 0 <= k < i ==> s[k] != b,
    ensures
        find_byte(s, b) == i,
    decreases s.len(),
{
    if i > 0 {
        lemma_find_byte_unique(s.drop_first(), b, i - 1);
    }
}

proof fn lemma_find_byte_step(s: Seq<u8>, b: u8, i: int)
    requires
        0 <= i < s.len(),
        s[i] != b,
        forall|k: int| 0 <= k < i ==> s[k] != b,
        find_byte(s, b) >= i,
    ensures
        find_byte(s, b) >= i + 1,
    decreases s.len(),
{
    lemma_find_byte(s, b);
    if find_byte(s, b) == i {
        assert(s[find_byte(s, b)] == b);
    }
}

/// The lines of `s`, split at each line-feed byte.  A trailing line feed
/// yields a final empty line; every caller filters or trims, so the
/// difference from `str::lines` is immaterial and stated plainly here.
pub open spec fn split_lines(s: Seq<u8>) -> Seq<Seq<u8>>
    decreases s.len(),
{
    let k = find_byte(s, 10);
    if 0 <= k < s.len() {
        seq![s.take(k)] + split_lines(s.skip(k + 1))
    } else {
        seq![s]
    }
}

pub fn split_lines_vec(s: &[u8]) -> (r: Vec<Vec<u8>>)
    ensures
        r.deep_view() == split_lines(s@),
    decreases s@.len(),
{
    proof {
        lemma_find_byte(s@, 10);
    }
    let k = find_byte_exec(s, 10);
    if k == s.len() {
        let mut r: Vec<Vec<u8>> = Vec::new();
        r.push(slice_to_vec(s));
        proof {
            assert(r.deep_view() =~~= split_lines(s@));
        }
        r
    } else {
        let first = slice_to_vec(slice_subrange(s, 0, k));
        let rest = slice_subrange(s, k + 1, s.len());
        proof {
            assert(rest@ =~= s@.skip(k + 1));
        }
        let tail = split_lines_vec(rest);
        let mut r: Vec<Vec<u8>> = Vec::new();
        r.push(first);
        proof {
            assert(r.deep_view() =~~= seq![s@.take(k as int)] + tail.deep_view().take(0));
        }
        let mut i: usize = 0;
        let n = tail.len();
        while i < n
            invariant
                0 <= i <= n,
                n == tail@.len(),
                tail.deep_view() == split_lines(s@.skip(k as int + 1)),
                s@.take(k as int) == first@,
                k == find_byte(s@, 10),
                k < s@.len(),
                r@.len() == i + 1,
                r.deep_view() == seq![s@.take(k as int)] + tail.deep_view().take(i as int),
            decreases n - i,
        {
            let ghost old_r = r.deep_view();
            let line = tail[i].clone();
            proof {
                assert(line@ == tail.deep_view()[i as int]);
            }
            r.push(line);
            proof {
                assert(r.deep_view() =~~= old_r.push(tail.deep_view()[i as int]));
                assert(r.deep_view() =~~= seq![s@.take(k as int)] + tail.deep_view().take(
                    i as int + 1,
                ));
            }
            i += 1;
        }
        proof {
            assert(tail.deep_view().take(n as int) =~~= tail.deep_view());
            assert(r.deep_view() =~~= split_lines(s@));
        }
        r
    }
}

pub fn to_lower_vec(s: &[u8]) -> (r: Vec<u8>)
    ensures
        r@ == lower_bytes(s@),
{
    let n = s.len();
    let mut r: Vec<u8> = Vec::new();
    let mut i: usize = 0;
    while i < n
        invariant
            0 <= i <= n,
            n == s@.len(),
            r@.len() == i,
            forall|j: int| 0 <= j < i ==> r@[j] == lower_b(s@[j]),
        decreases n - i,
    {
        let b = s[i];
        if 65 <= b && b <= 90 {
            r.push(b + 32);
        } else {
            r.push(b);
        }
        i += 1;
    }
    proof {
        assert(r@ =~= lower_bytes(s@));
    }
    r
}

/// First index at or after `i` whose byte is not ASCII whitespace.
pub open spec fn skip_spaces(s: Seq<u8>, i: int) -> int
    decreases s.len() - i,
{
    if 0 <= i < s.len() && is_space_b(s[i]) {
        skip_spaces(s, i + 1)
    } else {
        i
    }
}

/// First index at or after `i` whose byte is ASCII whitespace.
pub open spec fn skip_token(s: Seq<u8>, i: int) -> int
    decreases s.len() - i,
{
    if 0 <= i < s.len() && !is_space_b(s[i]) {
        skip_token(s, i + 1)
    } else {
        i
    }
}

proof fn lemma_skip_spaces_bounds(s: Seq<u8>, i: int)
    requires
        0 <= i <= s.len(),
    ensures
        i <= skip_spaces(s, i) <= s.len(),
        i <= skip_token(s, i) <= s.len(),
    decreases s.len() - i,
{
    if i < s.len() {
        lemma_skip_spaces_bounds(s, i + 1);
    }
}

/// The `n`-th (0-based) whitespace-delimited token of `s` starting the scan
/// at index `i`; `None` when fewer than `n + 1` tokens remain.
pub open spec fn token_after(s: Seq<u8>, i: int, n: nat) -> Option<Seq<u8>>
    decreases n,
{
    let st = skip_spaces(s, i);
    if st >= s.len() {
        None
    } else if n == 0 {
        Some(s.subrange(st, skip_token(s, st)))
    } else {
        token_after(s, skip_token(s, st), (n - 1) as nat)
    }
}

/// The `n`-th whitespace-delimited token, as `str::split_whitespace` counts
/// them.
pub open spec fn nth_token(s: Seq<u8>, n: nat) -> Option<Seq<u8>> {
    token_after(s, 0, n)
}

fn skip_spaces_exec(s: &[u8], i: usize) -> (r: usize)
    requires
        i <= s@.len(),
    ensures
        r == skip_spaces(s@, i as int),
        i <= r <= s@.len(),
{
    proof {
        lemma_skip_spaces_bounds(s@, i as int);
    }
    let n = s.len();
    let mut j = i;
    while j < n && is_space_exec(s[j])
        invariant
            i <= j <= n,
            n == s@.len(),
            skip_spaces(s@, i as int) == skip_spaces(s@, j as int),
        decreases n - j,
    {
        j += 1;
    }
    j
}

fn skip_token_exec(s: &[u8], i: usize) -> (r: usize)
    requires
        i <= s@.len(),
    ensures
        r == skip_token(s@, i as int),
        i <= r <= s@.len(),
{
    proof {
        lemma_skip_spaces_bounds(s@, i as int);
    }
    let n = s.len();
    let mut j = i;
    while j < n && !is_space_exec(s[j])
        invariant
            i <= j <= n,
            n == s@.len(),
            skip_token(s@, i as int) == skip_token(s@, j as int),
        decreases n - j,
    {
        j += 1;
    }
    j
}

fn token_after_exec(s: &[u8], i: usize, n: usize) -> (r: Option<Vec<u8>>)
    requires
        i <= s@.len(),
    ensures
        r.deep_view() == token_after(s@, i as int, n as nat),
    decreases n,
{
    let st = skip_spaces_exec(s, i);
    if st >= s.len() {
        None
    } else {
        let e = skip_token_exec(s, st);
        if n == 0 {
            Some(slice_to_vec(slice_subrange(s, st, e)))
        } else {
            token_after_exec(s, e, n - 1)
        }
    }
}

/// The `n`-th whitespace-delimited token of `s`, copied out.
pub fn nth_token_vec(s: &[u8], n: usize) -> (r: Option<Vec<u8>>)
    ensures
        r.deep_view() == nth_token(s@, n as nat),
{
    token_after_exec(s, 0, n)
}


/// Decimal value of a digit string, most significant first.
pub open spec fn dec_val(s: Seq<u8>) -> int
    decreases s.len(),
{
    if s.len() == 0 {
        0
    } else {
        dec_val(s.drop_last()) * 10 + (s.last() - 48)
    }
}

pub open spec fn all_digits(s: Seq<u8>) -> bool {
    forall|i: int| 0 <= i < s.len() ==> is_digit_b(s[i])
}

/// What `str::parse::<u32>` makes of `s`: an optional leading plus sign,
/// then at least one decimal digit, and the value must fit in a `u32`.
/// One deliberate exception: a leading minus sign is always rejected here,
/// where std tolerates it on a zero value ("-0").
pub open spec fn parse_u32_spec(s: Seq<u8>) -> Option<u32> {
    let body = if s.len() >= 1 && s[0] == 43 {
        s.drop_first()
    } else {
        s
    };
    if body.len() > 0 && all_digits(body) && dec_val(body) <= u32::MAX {
        Some(dec_val(body) as u32)
    } else {
        None
    }
}

proof fn lemma_dec_val_nonneg(s: Seq<u8>)
    requires
        all_digits(s),
    ensures
        dec_val(s) >= 0,
    decreases s.len(),
{
    if s.len() > 0 {
        assert(all_digits(s.drop_last()));
        lemma_dec_val_nonneg(s.drop_last());
    }
}

/// Appending digits never shrinks the value: the prefix is a lower bound.
proof fn lemma_dec_val_prefix(s: Seq<u8>, i: int)
    requires
        0 <= i <= s.len(),
        all_digits(s),
    ensures
        dec_val(s) >= dec_val(s.take(i)),
    decreases s.len() - i,
{
    if i < s.len() {
        lemma_dec_val_prefix(s, i + 1);
        assert(s.take(i + 1).drop_last() =~= s.take(i));
        assert(all_digits(s.take(i)));
        lemma_dec_val_nonneg(s.take(i));
        assert(dec_val(s.take(i + 1)) == dec_val(s.take(i)) * 10 + (s[i] - 48));
    } else {
        assert(s.take(i) =~= s);
    }
}

/// What `str::parse::<u32>` returns on this byte string.
pub fn parse_u32_bytes(s: &[u8]) -> (r: Option<u32>)
    ensures
        r == parse_u32_spec(s@),
{
    let body: &[u8] = if s.len() >= 1 && s[0] == 43 {
        slice_subrange(s, 1, s.len())
    } else {
        s
    };
    proof {
        assert(body@ =~= if s@.len() >= 1 && s@[0] == 43 {
            s@.drop_first()
        } else {
            s@
        });
    }
    let n = body.len();
    if n == 0 {
        return None;
    }
    let mut acc: u64 = 0;
    let mut k: usize = 0;
    while k < n
        invariant
            0 <= k <= n,
            n == body@.len() > 0,
            body@ == (if s@.len() >= 1 && s@[0] == 43 {
                s@.drop_first()
            } else {
                s@
            }),
            forall|j: int| 0 <= j < k ==> is_digit_b(body@[j]),
            acc == dec_val(body@.take(k as int)),
            acc <= u32::MAX,
        decreases n - k,
    {
        let b = body[k];
        if !(48 <= b && b <= 57) {
            proof {
                assert(!is_digit_b(body@[k as int]));
                assert(!all_digits(body@));
            }
            return None;
        }
        proof {
            assert(body@.take(k as int + 1).drop_last() =~= body@.take(k as int));
        }
        acc = acc * 10 + (b - 48) as u64;
        k += 1;
        if acc > 0xFFFF_FFFF {
            proof {
                if all_digits(body@) {
                    lemma_dec_val_prefix(body@, k as int);
                    assert(dec_val(body@) > u32::MAX);
                }
                assert(parse_u32_spec(s@) is None);
            }
            return None;
        }
    }
    proof {
        assert(body@.take(n as int) =~= body@);
    }
    Some(acc as u32)
}

pub open spec fn is_hex_digit_b(b: u8) -> bool {
    (48 <= b && b <= 57) || (97 <= b && b <= 102) || (65 <= b && b <= 70)
}

pub open spec fn hex_digit_val(b: u8) -> int {
    if 48 <= b && b <= 57 {
        b - 48
    } else if 97 <= b && b <= 102 {
        b - 87
    } else if 65 <= b && b <= 70 {
        b - 55
    } else {
        0
    }
}

/// Hexadecimal value of a digit string, most significant first.
pub open spec fn hex_val(s: Seq<u8>) -> int
    decreases s.len(),
{
    if s.len() == 0 {
        0
    } else {
        hex_val(s.drop_last()) * 16 + hex_digit_val(s.last())
    }
}

pub open spec fn all_hex_digits(s: Seq<u8>) -> bool {
    forall|i: int| 0 <= i < s.len() ==> is_hex_digit_b(s[i])
}

/// What `u32::from_str_radix(s, 16)` makes of `s`: an optional leading plus
/// sign, then at least one hexadecimal digit of either case, value fitting
/// in a `u32`.  One deliberate exception: a leading minus sign is always
/// rejected here, where std tolerates it on a zero value ("-0").
pub open spec fn parse_hex_u32_spec(s: Seq<u8>) -> Option<u32> {
    let body = if s.len() >= 1 && s[0] == 43 {
        s.drop_first()
    } else {
        s
    };
    if body.len() > 0 && all_hex_digits(body) && hex_val(body) <= u32::MAX {
        Some(hex_val(body) as u32)
    } else {
        None
    }
}

proof fn lemma_hex_val_nonneg(s: Seq<u8>)
    requires
        all_hex_digits(s),
    ensures
        hex_val(s) >= 0,
    decreases s.len(),
{
    if s.len() > 0 {
        assert(all_hex_digits(s.drop_last()));
        lemma_hex_val_nonneg(s.drop_last());
    }
}

proof fn lemma_hex_val_prefix(s: Seq<u8>, i: int)
    requires
        0 <= i <= s.len(),
        all_hex_digits(s),
    ensures
        hex_val(s) >= hex_val(s.take(i)),
    decreases s.len() - i,
{
    if i < s.len() {
        lemma_hex_val_prefix(s, i + 1);
        assert(s.take(i + 1).drop_last() =~= s.take(i));
        assert(all_hex_digits(s.take(i)));
        lemma_hex_val_nonneg(s.take(i));
        assert(hex_val(s.take(i + 1)) == hex_val(s.take(i)) * 16 + hex_digit_val(s[i]));
    } else {
        assert(s.take(i) =~= s);
    }
}

fn hex_digit_val_exec(b: u8) -> (r: Option<u8>)
    ensures
        match r {
            Some(v) => is_hex_digit_b(b) && v == hex_digit_val(b),
            None => !is_hex_digit_b(b),
        },
{
    if 48 <= b && b <= 57 {
        Some(b - 48)
    } else if 97 <= b && b <= 102 {
        Some(b - 87)
    } else if 65 <= b && b <= 70 {
        Some(b - 55)
    } else {
        None
    }
}

/// What `u32::from_str_radix(s, 16)` returns on this byte string.
pub fn parse_hex_u32_bytes(s: &[u8]) -> (r: Option<u32>)
    ensures
        r == parse_hex_u32_spec(s@),
{
    let body: &[u8] = if s.len() >= 1 && s[0] == 43 {
        slice_subrange(s, 1, s.len())
    } else {
        s
    };
    proof {
        assert(body@ =~= if s@.len() >= 1 && s@[0] == 43 {
            s@.drop_first()
        } else {
            s@
        });
    }
    let n = body.len();
    if n == 0 {
        return None;
    }
    let mut acc: u64 = 0;
    let mut k: usize = 0;
    while k < n
        invariant
            0 <= k <= n,
            n == body@.len() > 0,
            body@ == (if s@.len() >= 1 && s@[0] == 43 {
                s@.drop_first()
            } else {
                s@
            }),
            forall|j: int| 0 <= j < k ==> is_hex_digit_b(body@[j]),
            acc == hex_val(body@.take(k as int)),
            acc <= u32::MAX,
        decreases n - k,
    {
        let d = match hex_digit_val_exec(body[k]) {
            Some(d) => d,
            None => {
                proof {
                    assert(!is_hex_digit_b(body@[k as int]));
                    assert(!all_hex_digits(body@));
                }
                return None;
            },
        };
        proof {
            assert(body@.take(k as int + 1).drop_last() =~= body@.take(k as int));
        }
        acc = acc * 16 + d as u64;
        k += 1;
        if acc > 0xFFFF_FFFF {
            proof {
                if all_hex_digits(body@) {
                    lemma_hex_val_prefix(body@, k as int);
                    assert(hex_val(body@) > u32::MAX);
                }
                assert(parse_hex_u32_spec(s@) is None);
            }
            return None;
        }
    }
    proof {
        assert(body@.take(n as int) =~= body@);
    }
    Some(acc as u32)
}

/// The decimal digits of `n`, as `u32::to_string` writes them.
pub open spec fn dec_digits(n: int) -> Seq<u8>
    decreases n,
{
    if n < 10 {
        seq![(48 + if n >= 0 { n } else { 0 }) as u8]
    } else {
        dec_digits(n / 10).push((48 + n % 10) as u8)
    }
}

pub fn u32_to_dec_vec(n: u32) -> (r: Vec<u8>)
    ensures
        r@ == dec_digits(n as int),
    decreases n,
{
    if n < 10 {
        let mut r: Vec<u8> = Vec::new();
        r.push(48 + n as u8);
        proof {
            assert(r@ =~= dec_digits(n as int));
        }
        r
    } else {
        let mut r = u32_to_dec_vec(n / 10);
        r.push(48 + (n % 10) as u8);
        r
    }
}

/// `parts` joined by `sep`, as `[&str]::join` builds it.
pub open spec fn join_sep(parts: Seq<Seq<u8>>, sep: Seq<u8>) -> Seq<u8>
    decreases parts.len(),
{
    if parts.len() == 0 {
        Seq::empty()
    } else if parts.len() == 1 {
        parts[0]
    } else {
        parts[0] + sep + join_sep(parts.drop_first(), sep)
    }
}

proof fn lemma_join_push(parts: Seq<Seq<u8>>, x: Seq<u8>, sep: Seq<u8>)
    ensures
        join_sep(parts.push(x), sep) == if parts.len() == 0 {
            x
        } else {
            join_sep(parts, sep) + sep + x
        },
    decreases parts.len(),
{
    if parts.len() == 0 {
        assert(parts.push(x)[0] == x);
    } else {
        lemma_join_push(parts.drop_first(), x, sep);
        assert(parts.push(x).drop_first() =~~= parts.drop_first().push(x));
        if parts.len() == 1 {
            assert(join_sep(parts.push(x), sep) == parts[0] + sep + join_sep(
                parts.drop_first().push(x),
                sep,
            ));
            assert(parts.drop_first().push(x).len() == 1);
            assert(join_sep(parts.drop_first().push(x), sep) == x);
        }
    }
}

/// Appends `more` to `acc`.
pub fn append_bytes(acc: &mut Vec<u8>, more: &[u8])
    ensures
        final(acc)@ == old(acc)@ + more@,
{
    let n = more.len();
    let mut i: usize = 0;
    while i < n
        invariant
            0 <= i <= n,
            n == more@.len(),
            acc@ == old(acc)@ + more@.take(i as int),
        decreases n - i,
    {
        acc.push(more[i]);
        proof {
            assert(old(acc)@ + more@.take(i as int + 1) =~= (old(acc)@ + more@.take(
                i as int,
            )).push(more@[i as int]));
        }
        i += 1;
    }
    proof {
        assert(more@.take(n as int) =~= more@);
    }
}

/// Joins the byte strings in `parts` with the separator `sep`.
pub fn join_bytes(parts: &Vec<Vec<u8>>, sep: &[u8]) -> (r: Vec<u8>)
    ensures
        r@ == join_sep(parts.deep_view(), sep@),
{
    let n = parts.len();
    let mut r: Vec<u8> = Vec::new();
    let mut i: usize = 0;
    while i < n
        invariant
            0 <= i <= n,
            n == parts@.len(),
            r@ == join_sep(parts.deep_view().take(i as int), sep@),
        decreases n - i,
    {
        if i > 0 {
            append_bytes(&mut r, sep);
        }
        let part: &Vec<u8> = &parts[i];
        proof {
            assert(part@ == parts.deep_view()[i as int]);
        }
        append_bytes(&mut r, part.as_slice());
        proof {
            lemma_join_push(parts.deep_view().take(i as int), parts.deep_view()[i as int], sep@);
            assert(parts.deep_view().take(i as int).push(parts.deep_view()[i as int]) =~~= parts
                .deep_view()
                .take(i as int + 1));
        }
        i += 1;
    }
    proof {
        assert(parts.deep_view().take(n as int) =~~= parts.deep_view());
    }
    r
}

} // verus!

