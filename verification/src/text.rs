//! Character and token-list utilities for HTTP header handling.
//!
//! Header names and the comma-separated token lists carried in header values
//! (such as `Connection`) compare case-insensitively over ASCII letters, and
//! each token is trimmed of surrounding whitespace before comparison.

use vstd::prelude::*;
use vstd::string::StrSliceExecFns;

verus! {

/// ASCII lowercasing of one character; every other character is unchanged.
pub open spec fn lower_char(c: char) -> char {
    if 65 <= c as u32 && c as u32 <= 90 {
        (((c as u32) + 32) as u8) as char
    } else {
        c
    }
}

/// ASCII lowercasing of a character sequence.
pub open spec fn lower_seq(s: Seq<char>) -> Seq<char> {
    s.map_values(|c: char| lower_char(c))
}

/// Case-insensitive equality of two character sequences (ASCII case only).
pub open spec fn eq_ci(a: Seq<char>, b: Seq<char>) -> bool {
    lower_seq(a) == lower_seq(b)
}

/// The whitespace characters that token trimming removes.
pub open spec fn is_ws(c: char) -> bool {
    c == ' ' || c == '\t' || c == '\n' || c == '\r' || c == '\u{b}' || c == '\u{c}'
}

/// Index of the first non-whitespace character in `s[lo..hi]`, or `hi` if none.
pub open spec fn first_non_ws(s: Seq<char>, lo: int, hi: int) -> int
    decreases hi - lo,
{
    if lo < hi && is_ws(s[lo]) {
        first_non_ws(s, lo + 1, hi)
    } else {
        lo
    }
}

/// End (exclusive) of the last non-whitespace character in `s[lo..hi]`, or `lo` if none.
pub open spec fn last_non_ws(s: Seq<char>, lo: int, hi: int) -> int
    decreases hi - lo,
{
    if lo < hi && is_ws(s[hi - 1]) {
        last_non_ws(s, lo, hi - 1)
    } else {
        hi
    }
}

/// `s[lo..hi]` with surrounding whitespace removed.
pub open spec fn seg_trimmed(s: Seq<char>, lo: int, hi: int) -> Seq<char>
    recommends
        0 <= lo <= hi <= s.len(),
{
    let f = first_non_ws(s, lo, hi);
    let b = last_non_ws(s, f, hi);
    s.subrange(f, b)
}

/// `[lo, hi)` delimits one comma-separated segment of `s`: it touches a comma
/// or an end of the sequence on both sides and holds no comma itself.
pub open spec fn seg_bounds(s: Seq<char>, lo: int, hi: int) -> bool {
    &&& 0 <= lo <= hi <= s.len()
    &&& (lo == 0 || s[lo - 1] == ',')
    &&& (hi == s.len() || s[hi] == ',')
    &&& forall|k: int| lo <= k < hi ==> s[k] != ','
}

/// Some comma-separated segment of `s`, trimmed, equals `tok` up to ASCII case.
pub open spec fn has_token_ci(s: Seq<char>, tok: Seq<char>) -> bool {
    exists|lo: int, hi: int| seg_bounds(s, lo, hi) && eq_ci(seg_trimmed(s, lo, hi), tok)
}

/// Case-insensitive equality is equality of length plus pointwise equality of
/// lowercased characters.
pub proof fn lemma_eq_ci_pointwise(a: Seq<char>, b: Seq<char>)
    ensures
        eq_ci(a, b) <==> (a.len() == b.len() && forall|i: int|
            0 <= i < a.len() ==> lower_char(a[i]) == lower_char(b[i])),
{
    if a.len() == b.len() && (forall|i: int|
        0 <= i < a.len() ==> lower_char(a[i]) == lower_char(b[i])) {
        assert(lower_seq(a) =~= lower_seq(b));
    }
    if eq_ci(a, b) {
        assert(lower_seq(a).len() == a.len());
        assert(lower_seq(b).len() == b.len());
        assert forall|i: int| 0 <= i < a.len() implies lower_char(a[i]) == lower_char(b[i]) by {
            assert(lower_seq(a)[i] == lower_seq(b)[i]);
        }
    }
}

pub fn lower_char_exec(c: char) -> (r: char)
    ensures
        r == lower_char(c),
{
    let u = c as u32;
    if 65 <= u && u <= 90 {
        ((u + 32) as u8) as char
    } else {
        c
    }
}

pub fn is_ws_exec(c: char) -> (r: bool)
    ensures
        r == is_ws(c),
{
    c == ' ' || c == '\t' || c == '\n' || c == '\r' || c == '\u{b}' || c == '\u{c}'
}

/// Case-insensitive comparison of two string slices.
pub fn str_eq_ci(a: &str, b: &str) -> (r: bool)
    ensures
        r == eq_ci(a@, b@),
{
    proof {
        lemma_eq_ci_pointwise(a@, b@);
    }
    let alen = a.unicode_len();
    let blen = b.unicode_len();
    if alen != blen {
        return false;
    }
    let mut i: usize = 0;
    while i < alen
        invariant
            alen == a@.len(),
            alen == b@.len(),
            0 <= i <= alen,
            forall|k: int| 0 <= k < i ==> lower_char(a@[k]) == lower_char(b@[k]),
            eq_ci(a@, b@) <==> (forall|k: int|
                0 <= k < a@.len() ==> lower_char(a@[k]) == lower_char(b@[k])),
        decreases alen - i,
    {
        if lower_char_exec(a.get_char(i)) != lower_char_exec(b.get_char(i)) {
            return false;
        }
        i += 1;
    }
    true
}

/// Compares the trimmed segment `s[lo..hi]` with `tok`, case-insensitively.
fn seg_eq_ci(s: &str, lo: usize, hi: usize, tok: &str) -> (r: bool)
    requires
        lo <= hi <= s@.len(),
    ensures
        r == eq_ci(seg_trimmed(s@, lo as int, hi as int), tok@),
{
    let mut f = lo;
    while f < hi && is_ws_exec(s.get_char(f))
        invariant
            lo <= f <= hi <= s@.len(),
            first_non_ws(s@, lo as int, hi as int) == first_non_ws(s@, f as int, hi as int),
        decreases hi - f,
    {
        f += 1;
    }
    assert(first_non_ws(s@, lo as int, hi as int) == f as int);
    let mut b = hi;
    while b > f && is_ws_exec(s.get_char(b - 1))
        invariant
            f <= b <= hi <= s@.len(),
            last_non_ws(s@, f as int, hi as int) == last_non_ws(s@, f as int, b as int),
        decreases b,
    {
        b -= 1;
    }
    assert(last_non_ws(s@, f as int, hi as int) == b as int);
    let trimmed = Ghost(seg_trimmed(s@, lo as int, hi as int));
    assert(trimmed@ == s@.subrange(f as int, b as int));
    proof {
        lemma_eq_ci_pointwise(trimmed@, tok@);
    }
    let tok_len = tok.unicode_len();
    if b - f != tok_len {
        return false;
    }
    let mut j: usize = 0;
    while j < tok_len
        invariant
            f + tok_len == b,
            b <= s@.len(),
            tok_len == tok@.len(),
            0 <= j <= tok_len,
            trimmed@ == s@.subrange(f as int, b as int),
            trimmed@ == seg_trimmed(s@, lo as int, hi as int),
            forall|k: int| 0 <= k < j ==> lower_char(trimmed@[k]) == lower_char(tok@[k]),
            eq_ci(trimmed@, tok@) <==> (trimmed@.len() == tok@.len() && forall|k: int|
                0 <= k < trimmed@.len() ==> lower_char(trimmed@[k]) == lower_char(tok@[k])),
        decreases tok_len - j,
    {
        if lower_char_exec(s.get_char(f + j)) != lower_char_exec(tok.get_char(j)) {
            assert(trimmed@[j as int] == s@[f + j]);
            assert(lower_char(trimmed@[j as int]) != lower_char(tok@[j as int]));
            return false;
        }
        assert(trimmed@[j as int] == s@[f + j]);
        j += 1;
    }
    true
}

/// A segment's lower bound is determined by its upper bound: there is only
/// one comma-free run ending at a given place.
proof fn lemma_seg_lo_unique(s: Seq<char>, lo: int, hi: int, lo2: int)
    requires
        seg_bounds(s, lo, hi),
        0 <= lo2 <= hi,
        lo2 == 0 || s[lo2 - 1] == ',',
        forall|k: int| lo2 <= k < hi ==> s[k] != ',',
    ensures
        lo == lo2,
{
    if lo < lo2 {
        assert(s[lo2 - 1] == ',');
        assert(s[lo2 - 1] != ',');
    }
    if lo > lo2 {
        assert(s[lo - 1] == ',');
        assert(s[lo - 1] != ',');
    }
}

/// Whether any comma-separated token of `s`, trimmed, equals `tok` up to
/// ASCII case.
pub fn has_token_ci_str(s: &str, tok: &str) -> (r: bool)
    ensures
        r == has_token_ci(s@, tok@),
{
    let n = s.unicode_len();
    let mut seg_start: usize = 0;
    let mut i: usize = 0;
    while i < n
        invariant
            n == s@.len(),
            0 <= seg_start <= i <= n,
            seg_start == 0 || s@[seg_start - 1] == ',',
            forall|k: int| seg_start <= k < i ==> s@[k] != ',',
            forall|lo: int, hi: int|
                seg_bounds(s@, lo, hi) && hi < i ==> !eq_ci(seg_trimmed(s@, lo, hi), tok@),
        decreases n - i,
    {
        if s.get_char(i) == ',' {
            if seg_eq_ci(s, seg_start, i, tok) {
                assert(seg_bounds(s@, seg_start as int, i as int));
                return true;
            }
            proof {
                assert forall|lo: int, hi: int|
                    seg_bounds(s@, lo, hi) && hi < i + 1 implies !eq_ci(
                    seg_trimmed(s@, lo, hi),
                    tok@,
                ) by {
                    if hi == i {
                        lemma_seg_lo_unique(s@, lo, hi, seg_start as int);
                    }
                }
            }
            seg_start = i + 1;
        } else {
            proof {
                assert forall|lo: int, hi: int|
                    seg_bounds(s@, lo, hi) && hi < i + 1 implies !eq_ci(
                    seg_trimmed(s@, lo, hi),
                    tok@,
                ) by {
                    if hi == i {
                        assert(s@[hi] != ',');
                    }
                }
            }
        }
        i += 1;
    }
    if seg_eq_ci(s, seg_start, n, tok) {
        assert(seg_bounds(s@, seg_start as int, n as int));
        return true;
    }
    proof {
        assert forall|lo: int, hi: int|
            seg_bounds(s@, lo, hi) implies !eq_ci(seg_trimmed(s@, lo, hi), tok@) by {
            if hi == n {
                lemma_seg_lo_unique(s@, lo, hi, seg_start as int);
            }
        }
    }
    false
}

} // verus!
