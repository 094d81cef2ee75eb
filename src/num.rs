//! Fixed-point lengths: every length, size and ratio is an `i64` count of
//! thousandths. Parses decimal tokens into that form and prints it back at a
//! chosen number of decimals.
use vstd::prelude::*;
use crate::strings::{decimal, find_char, index_of, padded, push_char, push_decimal, push_padded, push_str};

verus! {

/// Thousandths in one unit.
pub const SCALE: i64 = 1000;

/// Whole digits accepted in a decimal token.
pub const MAX_WHOLE_DIGITS: usize = 8;

pub open spec fn pow10(n: nat) -> nat
    decreases n,
{
    if n == 0 {
        1
    } else {
        10 * pow10((n - 1) as nat)
    }
}

pub open spec fn is_digit(c: char) -> bool {
    '0' <= c && c <= '9'
}

pub open spec fn digit_of(c: char) -> nat {
    (c as u32 - '0' as u32) as nat
}

pub open spec fn all_digits(d: Seq<char>) -> bool {
    forall|i: int| 0 <= i < d.len() ==> is_digit(#[trigger] d[i])
}

/// The value of a run of decimal digits.
pub open spec fn digits_value(d: Seq<char>) -> nat
    decreases d.len(),
{
    if d.len() == 0 {
        0
    } else {
        digits_value(d.drop_last()) * 10 + digit_of(d.last())
    }
}

/// The token with a leading sign removed.
pub open spec fn unsigned_part(t: Seq<char>) -> Seq<char> {
    if t.len() > 0 && (t[0] == '-' || t[0] == '+') {
        t.drop_first()
    } else {
        t
    }
}

pub open spec fn whole_part(t: Seq<char>) -> Seq<char> {
    unsigned_part(t).take(index_of(unsigned_part(t), '.') as int)
}

pub open spec fn fraction_part(t: Seq<char>) -> Seq<char> {
    let b = unsigned_part(t);
    if index_of(b, '.') < b.len() {
        b.skip(index_of(b, '.') as int + 1)
    } else {
        Seq::empty()
    }
}

/// A decimal token `[+-]digits[.digits]` (at least one digit, at most eight
/// before the point), in thousandths; further fraction digits are dropped.
pub open spec fn number_value(t: Seq<char>) -> Option<int> {
    let w = whole_part(t);
    let f = fraction_part(t);
    if all_digits(w) && all_digits(f) && w.len() + f.len() > 0 && w.len() <= MAX_WHOLE_DIGITS {
        let m = digits_value(w) * 1000 + digits_value((f + "000"@).take(3));
        Some(if t.len() > 0 && t[0] == '-' { -m } else { m as int })
    } else {
        None
    }
}

proof fn lemma_digits_step(s: Seq<char>, j: int)
    requires
        0 <= j < s.len(),
    ensures
        digits_value(s.take(j + 1)) == digits_value(s.take(j)) * 10 + digit_of(s[j]),
{
    assert(s.take(j + 1).drop_last() =~= s.take(j));
}

/// Value of the digits `cs[lo..hi]`, all of which must be digits, with fewer
/// than `max + 1` of them; `None` when a character is not a digit.
fn digits_in(cs: &Vec<char>, lo: usize, hi: usize) -> (r: Option<u64>)
    requires
        lo <= hi <= cs.len(),
        hi - lo <= MAX_WHOLE_DIGITS,
    ensures
        r is Some <==> all_digits(cs@.subrange(lo as int, hi as int)),
        r is Some ==> r->0 == digits_value(cs@.subrange(lo as int, hi as int)),
        r is Some ==> r->0 < pow10((hi - lo) as nat),
{
    let ghost s = cs@.subrange(lo as int, hi as int);
    let mut acc: u64 = 0;
    let mut j: usize = lo;
    while j < hi
        invariant
            lo <= j <= hi <= cs.len(),
            hi - lo <= MAX_WHOLE_DIGITS,
            s == cs@.subrange(lo as int, hi as int),
            all_digits(s.take(j - lo)),
            acc == digits_value(s.take(j - lo)),
            acc < pow10((j - lo) as nat),
            pow10((j - lo) as nat) <= 100_000_000,
        decreases hi - j,
    {
        let c = cs[j];
        if !('0' <= c && c <= '9') {
            assert(!is_digit(s[j - lo]));
            return None;
        }
        proof {
            lemma_digits_step(s, j - lo);
            assert(s.take(j - lo + 1) =~= s.take(j - lo).push(c));
            assert(pow10((j - lo + 1) as nat) == 10 * pow10((j - lo) as nat));
            assert(j - lo < 8);
            lemma_pow10_small((j - lo + 1) as nat);
        }
        let d = (c as u32 - '0' as u32) as u64;
        acc = acc * 10 + d;
        j = j + 1;
    }
    assert(s.take(hi - lo) =~= s);
    Some(acc)
}

proof fn lemma_pow10_small(n: nat)
    requires
        n <= 8,
    ensures
        pow10(n) <= 100_000_000,
    decreases n,
{
    reveal_with_fuel(pow10, 9);
}

/// Whether every character of `cs[lo..hi]` is a decimal digit.
fn digits_only(cs: &Vec<char>, lo: usize, hi: usize) -> (r: bool)
    requires
        lo <= hi <= cs.len(),
    ensures
        r == all_digits(cs@.subrange(lo as int, hi as int)),
{
    let ghost f = cs@.subrange(lo as int, hi as int);
    let mut j: usize = lo;
    while j < hi
        invariant
            lo <= j <= hi <= cs.len(),
            f == cs@.subrange(lo as int, hi as int),
            all_digits(f.take(j - lo)),
        decreases hi - j,
    {
        if !('0' <= cs[j] && cs[j] <= '9') {
            assert(!is_digit(f[j - lo]));
            return false;
        }
        assert(f.take(j - lo + 1) =~= f.take(j - lo).push(cs[j as int]));
        j = j + 1;
    }
    assert(f.take(hi - lo) =~= f);
    true
}

/// Thousandths given by the fraction digits `cs[lo..hi]`.
fn fraction_value(cs: &Vec<char>, lo: usize, hi: usize) -> (r: u64)
    requires
        lo <= hi <= cs.len(),
        all_digits(cs@.subrange(lo as int, hi as int)),
    ensures
        r == digits_value((cs@.subrange(lo as int, hi as int) + "000"@).take(3)),
        r < 1000,
{
    let ghost f = cs@.subrange(lo as int, hi as int);
    let ghost f3 = (f + "000"@).take(3);
    let mut acc: u64 = 0;
    let mut n: usize = 0;
    while n < 3
        invariant
            n <= 3,
            lo <= hi <= cs.len(),
            f == cs@.subrange(lo as int, hi as int),
            f3 == (f + "000"@).take(3),
            all_digits(f),
            acc == digits_value(f3.take(n as int)),
            acc < pow10(n as nat),
            pow10(n as nat) <= 1000,
        decreases 3 - n,
    {
        let c = if n < hi - lo { cs[lo + n] } else { '0' };
        proof {
            reveal_strlit("000");
            assert(f3[n as int] == c);
            lemma_digits_step(f3, n as int);
            reveal_with_fuel(pow10, 4);
            assert(is_digit(c));
        }
        acc = acc * 10 + (c as u32 - '0' as u32) as u64;
        n = n + 1;
    }
    proof {
        reveal_strlit("000");
    }
    assert(f3.take(3) =~= f3);
    acc
}

/// Parses the decimal token `cs[lo..hi]` into thousandths.
pub fn parse_number(cs: &Vec<char>, lo: usize, hi: usize) -> (r: Option<i64>)
    requires
        lo <= hi <= cs.len(),
    ensures
        r is Some <==> number_value(cs@.subrange(lo as int, hi as int)) is Some,
        r is Some ==> r->0 == number_value(cs@.subrange(lo as int, hi as int))->0,
        r is Some ==> -100_000_000_000 < r->0 < 100_000_000_000,
{
    let ghost t = cs@.subrange(lo as int, hi as int);
    let neg = lo < hi && cs[lo] == '-';
    let start = if lo < hi && (cs[lo] == '-' || cs[lo] == '+') {
        lo + 1
    } else {
        lo
    };
    let ghost b = cs@.subrange(start as int, hi as int);
    assert(b =~= unsigned_part(t));
    let k = find_char(cs, start, hi, '.');
    assert(whole_part(t) =~= cs@.subrange(start as int, k as int));
    let frac_lo = if k < hi {
        k + 1
    } else {
        hi
    };
    assert(fraction_part(t) =~= cs@.subrange(frac_lo as int, hi as int));
    if k - start > MAX_WHOLE_DIGITS || k - start + (hi - frac_lo) == 0 {
        return None;
    }
    let whole = digits_in(cs, start, k);
    if whole.is_none() || !digits_only(cs, frac_lo, hi) {
        return None;
    }
    let w = whole.unwrap();
    let f = fraction_value(cs, frac_lo, hi);
    proof {
        lemma_pow10_small((k - start) as nat);
    }
    let m = (w * 1000 + f) as i64;
    if neg {
        Some(-m)
    } else {
        Some(m)
    }
}

/// `m` divided by `d`, rounded to nearest with ties to even.
pub open spec fn round_even(m: nat, d: nat) -> nat
    recommends
        d > 0,
{
    let q = m / d;
    let r = m % d;
    if 2 * r > d || (2 * r == d && q % 2 == 1) {
        q + 1
    } else {
        q
    }
}

/// The text of `v` thousandths printed with `p` decimals.
pub open spec fn fixed_text(v: int, p: nat) -> Seq<char> {
    let m = if v < 0 { (-v) as nat } else { v as nat };
    let sign = if v < 0 { "-"@ } else { Seq::<char>::empty() };
    if p >= 3 {
        sign + decimal(m / 1000) + "."@ + padded(m % 1000, 3) + padded(0, (p - 3) as nat)
    } else {
        let q = round_even(m, pow10((3 - p) as nat));
        sign + decimal(q / pow10(p)) + if p == 0 {
            Seq::<char>::empty()
        } else {
            "."@ + padded(q % pow10(p), p)
        }
    }
}

/// The magnitude of `v`.
fn magnitude(v: i64) -> (m: u64)
    ensures
        m == if v < 0 { -v } else { v as int },
{
    if v < 0 {
        (0i128 - v as i128) as u64
    } else {
        v as u64
    }
}

/// Appends `m` thousandths printed with `p >= 3` decimals.
fn push_fixed_exact(out: &mut String, m: u64, p: usize)
    requires
        p >= 3,
    ensures
        final(out)@ == old(out)@ + decimal(m as nat / 1000) + "."@ + padded(m as nat % 1000, 3)
            + padded(0, (p - 3) as nat),
{
    push_decimal(out, m / 1000);
    push_str(out, ".");
    push_padded(out, m % 1000, 3);
    push_padded(out, 0, p - 3);
}

/// Appends `m` thousandths rounded to `p < 3` decimals.
fn push_fixed_rounded(out: &mut String, m: u64, p: usize)
    requires
        p < 3,
    ensures
        final(out)@ == old(out)@ + ({
            let q = round_even(m as nat, pow10((3 - p) as nat));
            decimal(q / pow10(p as nat)) + if p == 0 {
                Seq::<char>::empty()
            } else {
                "."@ + padded(q % pow10(p as nat), p as nat)
            }
        }),
{
    let ghost start = out@;
    let d: u64 = if p == 0 {
        1000
    } else if p == 1 {
        100
    } else {
        10
    };
    let e: u64 = if p == 0 {
        1
    } else if p == 1 {
        10
    } else {
        100
    };
    assert(d == pow10((3 - p) as nat) && e == pow10(p as nat)) by {
        reveal_with_fuel(pow10, 4);
    }
    let q0 = m / d;
    let r = m % d;
    let q = if 2 * r > d || (2 * r == d && q0 % 2 == 1) {
        q0 + 1
    } else {
        q0
    };
    assert(q == round_even(m as nat, d as nat));
    push_decimal(out, q / e);
    if p > 0 {
        push_str(out, ".");
        push_padded(out, q % e, p);
    }
    assert(out@ =~= start + ({
        let q = round_even(m as nat, pow10((3 - p) as nat));
        decimal(q / pow10(p as nat)) + if p == 0 {
            Seq::<char>::empty()
        } else {
            "."@ + padded(q % pow10(p as nat), p as nat)
        }
    }));
}

/// Appends `v` thousandths printed with `p` decimals.
pub fn push_fixed(out: &mut String, v: i64, p: usize)
    ensures
        final(out)@ == old(out)@ + fixed_text(v as int, p as nat),
{
    let ghost start = out@;
    let m = magnitude(v);
    if v < 0 {
        push_str(out, "-");
    }
    if p >= 3 {
        push_fixed_exact(out, m, p);
    } else {
        push_fixed_rounded(out, m, p);
    }
    assert(out@ =~= start + fixed_text(v as int, p as nat));
}

} // verus!
