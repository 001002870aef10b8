//! Verified decimal rendering and parsing of unsigned 64-bit integers, with
//! the round-trip lemma the export codec rests on.

use vstd::prelude::*;

verus! {

/// The digit character for a value below ten.
pub open spec fn spec_digit(d: int) -> char
    recommends
        0 <= d < 10,
{
    if d == 0 {
        '0'
    } else if d == 1 {
        '1'
    } else if d == 2 {
        '2'
    } else if d == 3 {
        '3'
    } else if d == 4 {
        '4'
    } else if d == 5 {
        '5'
    } else if d == 6 {
        '6'
    } else if d == 7 {
        '7'
    } else if d == 8 {
        '8'
    } else {
        '9'
    }
}

/// Whether `c` is a decimal digit.
pub open spec fn spec_is_digit(c: char) -> bool {
    '0' <= c && c <= '9'
}

/// The value of a digit character.
pub open spec fn spec_digit_val(c: char) -> int
    recommends
        spec_is_digit(c),
{
    c as int - '0' as int
}

/// The decimal rendering of `n`: most significant digit first, no sign, no
/// leading zero but for the value zero itself.
pub open spec fn spec_dec(n: int) -> Seq<char>
    recommends
        n >= 0,
    decreases n,
{
    if n < 10 {
        seq![spec_digit(n)]
    } else {
        spec_dec(n / 10).push(spec_digit(n % 10))
    }
}

/// Every character of a decimal rendering is a digit, it is non-empty, and
/// each digit carries the right value.
pub proof fn lemma_dec_digits(n: int)
    requires
        n >= 0,
    ensures
        spec_dec(n).len() >= 1,
        forall|k: int| 0 <= k < spec_dec(n).len() ==> spec_is_digit(#[trigger] spec_dec(n)[k]),
    decreases n,
{
    if n < 10 {
        assert(spec_is_digit(spec_digit(n)));
    } else {
        lemma_dec_digits(n / 10);
        assert(spec_is_digit(spec_digit(n % 10)));
        assert forall|k: int| 0 <= k < spec_dec(n).len() implies spec_is_digit(
            #[trigger] spec_dec(n)[k],
        ) by {
            if k < spec_dec(n / 10).len() {
                assert(spec_dec(n)[k] == spec_dec(n / 10)[k]);
            }
        }
    }
}

/// Appends the decimal rendering of `n` to `out`.
pub fn push_dec(out: &mut Vec<char>, n: u64)
    ensures
        final(out)@ == old(out)@ + spec_dec(n as int),
    decreases n,
{
    if n >= 10 {
        push_dec(out, n / 10);
    }
    let d = n % 10;
    let c = match d {
        0 => '0',
        1 => '1',
        2 => '2',
        3 => '3',
        4 => '4',
        5 => '5',
        6 => '6',
        7 => '7',
        8 => '8',
        _ => '9',
    };
    assert(c == spec_digit(d as int));
    out.push(c);
    proof {
        if n < 10 {
            assert(n % 10 == n as int);
            assert(final(out)@ =~= old(out)@ + spec_dec(n as int));
        } else {
            assert(final(out)@ =~= old(out)@ + spec_dec(n as int));
        }
    }
}

/// The end of the digit run starting at `i`.
pub open spec fn digits_end(s: Seq<char>, i: int) -> int
    recommends
        0 <= i <= s.len(),
    decreases s.len() - i,
{
    if 0 <= i < s.len() && spec_is_digit(s[i]) {
        digits_end(s, i + 1)
    } else {
        i
    }
}

/// The value of the digits between `i` and `j`.
pub open spec fn digits_val(s: Seq<char>, i: int, j: int) -> int
    recommends
        0 <= i <= j <= s.len(),
    decreases j - i,
{
    if j <= i {
        0
    } else {
        digits_val(s, i, j - 1) * 10 + spec_digit_val(s[j - 1])
    }
}

/// The parse of an unsigned decimal at `i`: the value of the maximal digit
/// run and the position after it; nothing when no digit stands at `i` or the
/// value exceeds `u64::MAX`.
pub open spec fn spec_parse_u64(s: Seq<char>, i: int) -> Option<(u64, int)> {
    let j = digits_end(s, i);
    if j == i {
        None
    } else if digits_val(s, i, j) <= u64::MAX {
        Some((digits_val(s, i, j) as u64, j))
    } else {
        None
    }
}

/// The digit run at the start of a rendered number covers exactly the
/// rendering: the first character past it is not a digit.
proof fn lemma_digits_end_of_dec(s: Seq<char>, i: int, n: int)
    requires
        n >= 0,
        0 <= i,
        i + spec_dec(n).len() <= s.len(),
        forall|k: int| 0 <= k < spec_dec(n).len() ==> s[i + k] == spec_dec(n)[k],
        i + spec_dec(n).len() == s.len() || !spec_is_digit(s[i + spec_dec(n).len()]),
    ensures
        digits_end(s, i) == i + spec_dec(n).len(),
    decreases s.len() - i,
{
    lemma_dec_digits(n);
    assert forall|k: int| i <= k < i + spec_dec(n).len() implies spec_is_digit(
        #[trigger] s[k],
    ) by {
        assert(s[i + (k - i)] == spec_dec(n)[k - i]);
    }
    lemma_digit_run_end(s, i, i + spec_dec(n).len());
}

/// A digit run bounded by a non-digit (or the end) ends exactly there.
proof fn lemma_digit_run_end(s: Seq<char>, i: int, j: int)
    requires
        0 <= i <= j <= s.len(),
        forall|k: int| i <= k < j ==> spec_is_digit(#[trigger] s[k]),
        j == s.len() || !spec_is_digit(s[j]),
    ensures
        digits_end(s, i) == j,
    decreases j - i,
{
    if i < j {
        lemma_digit_run_end(s, i + 1, j);
    }
}

/// The value of the digits of a rendering is the rendered number.
proof fn lemma_digits_val_of_dec(s: Seq<char>, i: int, n: int)
    requires
        n >= 0,
        0 <= i,
        i + spec_dec(n).len() <= s.len(),
        forall|k: int| 0 <= k < spec_dec(n).len() ==> s[i + k] == spec_dec(n)[k],
    ensures
        digits_val(s, i, i + spec_dec(n).len()) == n,
    decreases n,
{
    if n < 10 {
        assert(spec_dec(n).len() == 1);
        assert(s[i + 0] == spec_dec(n)[0]);
        assert(s[i] == spec_digit(n));
        assert(spec_digit_val(spec_digit(n)) == n);
        assert(digits_val(s, i, i) == 0);
        assert(digits_val(s, i, i + 1) == digits_val(s, i, i) * 10 + spec_digit_val(s[i]));
    } else {
        let len1 = spec_dec(n / 10).len();
        assert forall|k: int| 0 <= k < len1 implies s[i + k] == #[trigger] spec_dec(n / 10)[k] by {
            assert(s[i + k] == spec_dec(n)[k]);
            assert(spec_dec(n)[k] == spec_dec(n / 10)[k]);
        }
        lemma_digits_val_of_dec(s, i, n / 10);
        assert(spec_dec(n).len() == len1 + 1);
        assert(0 <= n % 10 < 10) by (nonlinear_arith)
            requires
                n >= 10,
        ;
        assert(spec_digit_val(spec_digit(n % 10)) == n % 10);
        assert(s[i + (spec_dec(n).len() - 1)] == spec_dec(n)[spec_dec(n).len() - 1]);
        assert(s[i + spec_dec(n).len() - 1] == spec_dec(n).last());
        assert(spec_dec(n).last() == spec_digit(n % 10));
        assert(digits_val(s, i, i + spec_dec(n).len()) == digits_val(s, i, i + len1) * 10
            + spec_digit_val(spec_digit(n % 10)));
        assert(n / 10 * 10 + n % 10 == n) by (nonlinear_arith);
        assert(digits_val(s, i, i + spec_dec(n).len()) == n);
    }
}

/// Round trip: parsing right after rendering yields the rendered number and
/// stops at the rendering's end, whenever no digit follows it.
pub proof fn lemma_parse_dec(s: Seq<char>, i: int, n: u64)
    requires
        0 <= i,
        i + spec_dec(n as int).len() <= s.len(),
        forall|k: int| 0 <= k < spec_dec(n as int).len() ==> s[i + k] == spec_dec(n as int)[k],
        i + spec_dec(n as int).len() == s.len() || !spec_is_digit(
            s[i + spec_dec(n as int).len()],
        ),
    ensures
        spec_parse_u64(s, i) == Some((n, i + spec_dec(n as int).len())),
{
    lemma_dec_digits(n as int);
    lemma_digits_end_of_dec(s, i, n as int);
    lemma_digits_val_of_dec(s, i, n as int);
}

/// Parses the maximal digit run at `pos`, as `spec_parse_u64` states.
pub fn parse_u64_at(s: &Vec<char>, pos: usize) -> (r: Option<(u64, usize)>)
    requires
        pos <= s@.len(),
    ensures
        match r {
            Some((v, j)) => spec_parse_u64(s@, pos as int) == Some((v, j as int)) && pos < j
                <= s@.len(),
            None => spec_parse_u64(s@, pos as int) is None,
        },
{
    let n = s.len();
    let mut j = pos;
    let mut acc: u64 = 0;
    let mut overflowed = false;
    while j < n && '0' <= s[j] && s[j] <= '9'
        invariant
            n == s@.len(),
            pos <= j <= n,
            forall|k: int| pos <= k < j ==> spec_is_digit(#[trigger] s@[k]),
            digits_end(s@, pos as int) == digits_end(s@, j as int),
            !overflowed ==> acc == digits_val(s@, pos as int, j as int),
            overflowed ==> digits_val(s@, pos as int, j as int) > u64::MAX,
        decreases n - j,
    {
        let d: u64 = (s[j] as u32 as u64) - ('0' as u32 as u64);
        assert(d == spec_digit_val(s@[j as int]));
        assert(0 <= d < 10);
        if !overflowed {
            if acc > (u64::MAX - d) / 10 {
                overflowed = true;
                proof {
                    let v = digits_val(s@, pos as int, j as int);
                    assert(digits_val(s@, pos as int, j + 1) == v * 10 + d);
                    assert(v * 10 + d > u64::MAX) by (nonlinear_arith)
                        requires
                            v == acc as int,
                            acc as int > ((u64::MAX - d) as int) / 10,
                            0 <= d < 10,
                    ;
                }
            } else {
                proof {
                    let v = digits_val(s@, pos as int, j as int);
                    assert(v * 10 + d <= u64::MAX) by (nonlinear_arith)
                        requires
                            v == acc as int,
                            acc as int <= ((u64::MAX - d) as int) / 10,
                            0 <= d < 10,
                    ;
                }
                acc = acc * 10 + d;
            }
        } else {
            proof {
                let v = digits_val(s@, pos as int, j as int);
                assert(digits_val(s@, pos as int, j + 1) == v * 10 + d);
                assert(v * 10 + d > u64::MAX) by (nonlinear_arith)
                    requires
                        v > u64::MAX,
                        0 <= d,
                ;
            }
        }
        j += 1;
    }
    proof {
        lemma_digit_run_end(s@, pos as int, j as int);
    }
    if j == pos {
        None
    } else if overflowed {
        None
    } else {
        Some((acc, j))
    }
}

} // verus!
