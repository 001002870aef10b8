//! Verified text helpers over character sequences: conversion between
//! `String` and `Vec<char>`, prefix and suffix tests, leftmost non-overlapping
//! replacement, and whitespace trimming.

use vstd::prelude::*;

verus! {

/// The characters of `s`, in order.
pub fn chars_of(s: &str) -> (r: Vec<char>)
    ensures
        r@ == s@,
{
    let n = s.unicode_len();
    let mut r: Vec<char> = Vec::new();
    let mut i: usize = 0;
    while i < n
        invariant
            n == s@.len(),
            0 <= i <= n,
            r@ == s@.take(i as int),
        decreases n - i,
    {
        r.push(s.get_char(i));
        i += 1;
        assert(r@ =~= s@.take(i as int));
    }
    assert(r@ =~= s@);
    r
}

/// Relies on `core::iter::Iterator::collect` for `String`: collecting
/// characters yields the string of exactly those characters, in order.
#[verifier::external_body]
pub(crate) fn string_of(v: Vec<char>) -> (r: String)
    ensures
        r@ == v@,
{
    v.into_iter().collect()
}

/// Whether `s` starts with `p`.
pub open spec fn spec_starts_with(s: Seq<char>, p: Seq<char>) -> bool {
    s.len() >= p.len() && s.take(p.len() as int) == p
}

/// Whether `s` ends with `p`.
pub open spec fn spec_ends_with(s: Seq<char>, p: Seq<char>) -> bool {
    s.len() >= p.len() && s.skip(s.len() - p.len()) == p
}

/// Whether the characters of `s` from `at` onward start with `p`.
pub fn matches_at(s: &Vec<char>, at: usize, p: &Vec<char>) -> (r: bool)
    requires
        at <= s@.len(),
    ensures
        r == spec_starts_with(s@.skip(at as int), p@),
{
    let n = p.len();
    let sl = s.len();
    if sl - at < n {
        assert(!spec_starts_with(s@.skip(at as int), p@));
        return false;
    }
    let mut i: usize = 0;
    while i < n
        invariant
            n == p@.len(),
            sl == s@.len(),
            at + n <= sl,
            0 <= i <= n,
            forall|k: int| 0 <= k < i ==> s@[at + k] == p@[k],
        decreases n - i,
    {
        if s[at + i] != p[i] {
            assert(s@.skip(at as int)[i as int] != p@[i as int]);
            assert(!spec_starts_with(s@.skip(at as int), p@));
            return false;
        }
        i += 1;
    }
    assert(s@.skip(at as int).take(n as int) =~= p@);
    true
}

/// `s` with every leftmost, non-overlapping occurrence of `pat` replaced by
/// `rep`, scanning once from the left.
pub open spec fn spec_replace(s: Seq<char>, pat: Seq<char>, rep: Seq<char>) -> Seq<char>
    recommends
        pat.len() > 0,
    decreases s.len(),
{
    if pat.len() == 0 || s.len() == 0 {
        s
    } else if spec_starts_with(s, pat) {
        rep + spec_replace(s.skip(pat.len() as int), pat, rep)
    } else {
        seq![s[0]] + spec_replace(s.drop_first(), pat, rep)
    }
}

/// Replaces every leftmost, non-overlapping occurrence of `pat` in `s` by
/// `rep`.
pub fn replace_chars(s: &Vec<char>, pat: &Vec<char>, rep: &Vec<char>) -> (r: Vec<char>)
    requires
        pat@.len() > 0,
    ensures
        r@ == spec_replace(s@, pat@, rep@),
{
    let mut out: Vec<char> = Vec::new();
    let mut i: usize = 0;
    let n = s.len();
    proof {
        assert(s@.skip(0) =~= s@);
    }
    while i < n
        invariant
            n == s@.len(),
            pat@.len() > 0,
            0 <= i <= n,
            out@ + spec_replace(s@.skip(i as int), pat@, rep@) == spec_replace(s@, pat@, rep@),
        decreases n - i,
    {
        let ghost pre = out@;
        let ghost tail = s@.skip(i as int);
        if matches_at(s, i, pat) {
            let mut j: usize = 0;
            let m = rep.len();
            while j < m
                invariant
                    m == rep@.len(),
                    0 <= j <= m,
                    out@ == pre + rep@.take(j as int),
                decreases m - j,
            {
                out.push(rep[j]);
                j += 1;
                assert(out@ =~= pre + rep@.take(j as int));
            }
            assert(out@ =~= pre + rep@);
            i += pat.len();
            proof {
                assert(tail.skip(pat@.len() as int) =~= s@.skip(i as int));
                assert(out@ + spec_replace(s@.skip(i as int), pat@, rep@) =~= spec_replace(
                    s@,
                    pat@,
                    rep@,
                ));
            }
        } else {
            out.push(s[i]);
            i += 1;
            proof {
                assert(seq![tail[0]] =~= Seq::<char>::empty().push(tail[0]));
                assert(tail.drop_first() =~= s@.skip(i as int));
                assert(out@ =~= pre.push(tail[0]));
                assert(out@ + spec_replace(s@.skip(i as int), pat@, rep@) =~= spec_replace(
                    s@,
                    pat@,
                    rep@,
                ));
            }
        }
    }
    proof {
        assert(s@.skip(n as int) =~= Seq::<char>::empty());
        assert(out@ + spec_replace(s@.skip(n as int), pat@, rep@) =~= out@);
    }
    out
}

/// The Unicode `White_Space` characters, the set `str::trim_end` removes.
pub open spec fn spec_is_ws(c: char) -> bool {
    c == ' ' || c == '\t' || c == '\n' || c == '\r' || c == '\u{0B}' || c == '\u{0C}' || c
        == '\u{85}' || c == '\u{A0}' || c == '\u{1680}' || ('\u{2000}' <= c && c <= '\u{200A}') || c
        == '\u{2028}' || c == '\u{2029}' || c == '\u{202F}' || c == '\u{205F}' || c == '\u{3000}'
}

/// Whether `c` has the Unicode `White_Space` property.
pub fn is_ws(c: char) -> (r: bool)
    ensures
        r == spec_is_ws(c),
{
    c == ' ' || c == '\t' || c == '\n' || c == '\r' || c == '\u{0B}' || c == '\u{0C}' || c
        == '\u{85}' || c == '\u{A0}' || c == '\u{1680}' || ('\u{2000}' <= c && c <= '\u{200A}') || c
        == '\u{2028}' || c == '\u{2029}' || c == '\u{202F}' || c == '\u{205F}' || c == '\u{3000}'
}

/// `s` without its trailing whitespace.
pub open spec fn spec_trim_end(s: Seq<char>) -> Seq<char>
    decreases s.len(),
{
    if s.len() > 0 && spec_is_ws(s.last()) {
        spec_trim_end(s.drop_last())
    } else {
        s
    }
}

/// Removes trailing whitespace.
pub fn trim_end_chars(s: &Vec<char>) -> (r: Vec<char>)
    ensures
        r@ == spec_trim_end(s@),
{
    let mut end = s.len();
    proof {
        assert(s@.take(s@.len() as int) =~= s@);
    }
    while end > 0
        invariant_except_break
            0 <= end <= s@.len(),
            spec_trim_end(s@) == spec_trim_end(s@.take(end as int)),
        ensures
            0 <= end <= s@.len(),
            spec_trim_end(s@) == spec_trim_end(s@.take(end as int)),
            end > 0 ==> !spec_is_ws(s@[end - 1]),
        decreases end,
    {
        proof {
            assert(s@.take(end as int).drop_last() =~= s@.take(end - 1));
        }
        if is_ws(s[end - 1]) {
            assert(s@.take(end as int).last() == s@[end - 1]);
            end -= 1;
        } else {
            assert(!spec_is_ws(s@[end - 1]));
            break;
        }
    }
    let mut out: Vec<char> = Vec::new();
    let mut i: usize = 0;
    while i < end
        invariant
            0 <= i <= end <= s@.len(),
            out@ == s@.take(end as int).take(i as int),
        decreases end - i,
    {
        out.push(s[i]);
        i += 1;
        assert(out@ =~= s@.take(end as int).take(i as int));
    }
    proof {
        assert(out@ =~= s@.take(end as int));
        if end > 0 {
            assert(s@.take(end as int).last() == s@[end - 1]);
        }
        assert(spec_trim_end(s@.take(end as int)) == s@.take(end as int));
    }
    out
}

} // verus!
