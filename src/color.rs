//! RGBA colors: parsing from CSS-like text and formatting for SVG output.
use vstd::prelude::*;
use crate::num::{all_digits, digits_value, is_digit, number_value, parse_number};
use crate::strings::{
    lowercase_of, to_lower,
    decimal, equals_at, find_char, index_of, padded, push_char, push_decimal, push_padded,
    push_str, starts_with_at, string_of, to_chars, trim, trim_bounds,
};

verus! {

/// A color with 8-bit red, green, blue and alpha channels.
#[derive(Debug, Clone, Copy, PartialEq, Eq, Structural)]
pub struct Color {
    pub r: u8,
    pub g: u8,
    pub b: u8,
    pub a: u8,
}

pub open spec fn hex_char(n: nat) -> char {
    if n < 10 {
        crate::strings::digit_char(n)
    } else if n == 10 {
        'a'
    } else if n == 11 {
        'b'
    } else if n == 12 {
        'c'
    } else if n == 13 {
        'd'
    } else if n == 14 {
        'e'
    } else {
        'f'
    }
}

/// Two lowercase hex digits.
pub open spec fn hex2(n: u8) -> Seq<char> {
    seq![hex_char(n as nat / 16), hex_char(n as nat % 16)]
}

/// `a / 255` rounded to three decimals, in thousandths.
pub open spec fn alpha_thousandths(a: u8) -> nat {
    (a as nat * 2000 + 255) / 510
}

/// The CSS text of a color: `#rrggbb` when opaque, `none` when fully
/// transparent, otherwise `rgba(r,g,b,a)` with `a` as a fraction to three
/// decimals.
pub open spec fn css_text(c: Color) -> Seq<char> {
    if c.a == 255 {
        "#"@ + hex2(c.r) + hex2(c.g) + hex2(c.b)
    } else if c.a == 0 {
        "none"@
    } else {
        "rgba("@ + decimal(c.r as nat) + ","@ + decimal(c.g as nat) + ","@ + decimal(c.b as nat)
            + ",0."@ + padded(alpha_thousandths(c.a), 3) + ")"@
    }
}

/// Value of a hex digit.
pub open spec fn hex_value(c: char) -> Option<nat> {
    if '0' <= c && c <= '9' {
        Some((c as u32 - '0' as u32) as nat)
    } else if 'a' <= c && c <= 'f' {
        Some((c as u32 - 'a' as u32 + 10) as nat)
    } else if 'A' <= c && c <= 'F' {
        Some((c as u32 - 'A' as u32 + 10) as nat)
    } else {
        None
    }
}

/// A byte written as two hex digits.
pub open spec fn hex_byte(s: Seq<char>) -> Option<u8>
    recommends
        s.len() == 2,
{
    match (hex_value(s[0]), hex_value(s[1])) {
        (Some(h), Some(l)) => Some((h * 16 + l) as u8),
        _ => None,
    }
}

/// A one-character hex channel, repeated (`f` is `ff`).
pub open spec fn hex_short(c: char) -> Option<u8> {
    match hex_value(c) {
        Some(v) => Some((v * 17) as u8),
        None => None,
    }
}

/// The color written by the hex digits after `#`: three, six or eight of them.
pub open spec fn hex_color(h: Seq<char>) -> Option<Color> {
    if h.len() == 3 {
        match (hex_short(h[0]), hex_short(h[1]), hex_short(h[2])) {
            (Some(r), Some(g), Some(b)) => Some(Color { r, g, b, a: 255 }),
            _ => None,
        }
    } else if h.len() == 6 {
        match (hex_byte(h.subrange(0, 2)), hex_byte(h.subrange(2, 4)), hex_byte(h.subrange(4, 6))) {
            (Some(r), Some(g), Some(b)) => Some(Color { r, g, b, a: 255 }),
            _ => None,
        }
    } else if h.len() == 8 {
        match (
            hex_byte(h.subrange(0, 2)),
            hex_byte(h.subrange(2, 4)),
            hex_byte(h.subrange(4, 6)),
            hex_byte(h.subrange(6, 8)),
        ) {
            (Some(r), Some(g), Some(b), Some(a)) => Some(Color { r, g, b, a }),
            _ => None,
        }
    } else {
        None
    }
}

/// `s` with every leading repetition of `pat` removed.
pub open spec fn strip_all(s: Seq<char>, pat: Seq<char>) -> Seq<char>
    decreases s.len(),
{
    if pat.len() > 0 && pat.len() <= s.len() && s.take(pat.len() as int) == pat {
        strip_all(s.skip(pat.len() as int), pat)
    } else {
        s
    }
}

/// `s` with every trailing `c` removed.
pub open spec fn strip_end_all(s: Seq<char>, c: char) -> Seq<char>
    decreases s.len(),
{
    if s.len() > 0 && s.last() == c {
        strip_end_all(s.drop_last(), c)
    } else {
        s
    }
}

/// The pieces of `s` between occurrences of `c`.
pub open spec fn split_on(s: Seq<char>, c: char) -> Seq<Seq<char>>
    decreases s.len(),
{
    let k = index_of(s, c);
    if k >= s.len() {
        seq![s]
    } else {
        seq![s.take(k as int)] + split_on(s.skip(k as int + 1), c)
    }
}

/// The argument list of an `rgb(...)` / `rgba(...)` text.
pub open spec fn rgb_inner(t: Seq<char>) -> Seq<char> {
    strip_end_all(strip_all(strip_all(strip_all(t, "rgba"@), "rgb"@), "("@), ')')
}

/// A decimal byte: one or more digits, no greater than 255.
pub open spec fn byte_value(t: Seq<char>) -> Option<u8> {
    if t.len() > 0 && all_digits(t) && digits_value(t) <= 255 {
        Some(digits_value(t) as u8)
    } else {
        None
    }
}

/// An alpha fraction in thousandths scaled to a byte, truncated and clamped.
pub open spec fn alpha_byte(m: int) -> u8 {
    if m <= 0 {
        0
    } else if m * 255 / 1000 >= 255 {
        255
    } else {
        (m * 255 / 1000) as u8
    }
}

pub open spec fn alpha_value(t: Seq<char>) -> Option<u8> {
    match number_value(t) {
        Some(m) => Some(alpha_byte(m)),
        None => None,
    }
}

/// The color given by at least three comma-separated arguments.
pub open spec fn rgb_color(parts: Seq<Seq<char>>) -> Option<Color>
    recommends
        parts.len() >= 3,
{
    match (byte_value(trim(parts[0])), byte_value(trim(parts[1])), byte_value(trim(parts[2]))) {
        (Some(r), Some(g), Some(b)) => if parts.len() >= 4 {
            match alpha_value(trim(parts[3])) {
                Some(a) => Some(Color { r, g, b, a }),
                None => None,
            }
        } else {
            Some(Color { r, g, b, a: 255 })
        },
        _ => None,
    }
}

/// The named colors.
pub open spec fn named_color(n: Seq<char>) -> Option<Color> {
    if n == "transparent"@ {
        Some(Color { r: 0, g: 0, b: 0, a: 0 })
    } else if n == "black"@ {
        Some(Color { r: 0, g: 0, b: 0, a: 255 })
    } else if n == "white"@ {
        Some(Color { r: 255, g: 255, b: 255, a: 255 })
    } else if n == "red"@ {
        Some(Color { r: 255, g: 0, b: 0, a: 255 })
    } else if n == "green"@ {
        Some(Color { r: 0, g: 128, b: 0, a: 255 })
    } else if n == "blue"@ {
        Some(Color { r: 0, g: 0, b: 255, a: 255 })
    } else {
        None
    }
}

/// The color that a text denotes, if any: surrounding white space is
/// ignored; `#` starts hex notation; `rgb` starts the functional notation,
/// which is taken when it has three or more arguments; otherwise the
/// lowercase text must be a known name.
pub open spec fn color_value(s: Seq<char>) -> Option<Color> {
    let t = trim(s);
    if t.len() > 0 && t[0] == '#' {
        hex_color(t.drop_first())
    } else if t.len() >= 3 && t.take(3) == "rgb"@ && split_on(rgb_inner(t), ',').len() >= 3 {
        rgb_color(split_on(rgb_inner(t), ','))
    } else {
        named_color(lowercase_of(t))
    }
}

fn hex_digit(c: char) -> (r: Option<u8>)
    ensures
        r is Some <==> hex_value(c) is Some,
        r is Some ==> r->0 == hex_value(c)->0,
{
    if '0' <= c && c <= '9' {
        Some((c as u32 - '0' as u32) as u8)
    } else if 'a' <= c && c <= 'f' {
        Some((c as u32 - 'a' as u32 + 10) as u8)
    } else if 'A' <= c && c <= 'F' {
        Some((c as u32 - 'A' as u32 + 10) as u8)
    } else {
        None
    }
}

fn hex_byte_at(cs: &Vec<char>, i: usize) -> (r: Option<u8>)
    requires
        i + 2 <= cs.len(),
    ensures
        r == hex_byte(cs@.subrange(i as int, i + 2)),
{
    match (hex_digit(cs[i]), hex_digit(cs[i + 1])) {
        (Some(h), Some(l)) => Some(h * 16 + l),
        _ => None,
    }
}

fn hex_short_at(cs: &Vec<char>, i: usize) -> (r: Option<u8>)
    requires
        i < cs.len(),
    ensures
        r == hex_short(cs@[i as int]),
{
    match hex_digit(cs[i]) {
        Some(v) => Some(v * 17),
        None => None,
    }
}

fn hex_color_at(cs: &Vec<char>, lo: usize, hi: usize) -> (r: Option<Color>)
    requires
        lo <= hi <= cs.len(),
    ensures
        r == hex_color(cs@.subrange(lo as int, hi as int)),
{
    let ghost h = cs@.subrange(lo as int, hi as int);
    if hi - lo == 3 {
        match (hex_short_at(cs, lo), hex_short_at(cs, lo + 1), hex_short_at(cs, lo + 2)) {
            (Some(r), Some(g), Some(b)) => Some(Color { r, g, b, a: 255 }),
            _ => None,
        }
    } else if hi - lo == 6 {
        assert(h.subrange(0, 2) =~= cs@.subrange(lo as int, lo + 2));
        assert(h.subrange(2, 4) =~= cs@.subrange(lo + 2, lo + 4));
        assert(h.subrange(4, 6) =~= cs@.subrange(lo + 4, lo + 6));
        match (hex_byte_at(cs, lo), hex_byte_at(cs, lo + 2), hex_byte_at(cs, lo + 4)) {
            (Some(r), Some(g), Some(b)) => Some(Color { r, g, b, a: 255 }),
            _ => None,
        }
    } else if hi - lo == 8 {
        assert(h.subrange(0, 2) =~= cs@.subrange(lo as int, lo + 2));
        assert(h.subrange(2, 4) =~= cs@.subrange(lo + 2, lo + 4));
        assert(h.subrange(4, 6) =~= cs@.subrange(lo + 4, lo + 6));
        assert(h.subrange(6, 8) =~= cs@.subrange(lo + 6, lo + 8));
        match (
            hex_byte_at(cs, lo),
            hex_byte_at(cs, lo + 2),
            hex_byte_at(cs, lo + 4),
            hex_byte_at(cs, lo + 6),
        ) {
            (Some(r), Some(g), Some(b), Some(a)) => Some(Color { r, g, b, a }),
            _ => None,
        }
    } else {
        None
    }
}

/// Start of `cs[lo..hi]` once every leading `pat` is removed.
fn strip_all_at(cs: &Vec<char>, lo: usize, hi: usize, pat: &Vec<char>) -> (r: usize)
    requires
        lo <= hi <= cs.len(),
        pat.len() > 0,
    ensures
        lo <= r <= hi,
        cs@.subrange(r as int, hi as int) == strip_all(cs@.subrange(lo as int, hi as int), pat@),
{
    let mut i = lo;
    while starts_with_at(cs, i, hi, pat)
        invariant
            lo <= i <= hi <= cs.len(),
            pat.len() > 0,
            strip_all(cs@.subrange(i as int, hi as int), pat@) == strip_all(
                cs@.subrange(lo as int, hi as int),
                pat@,
            ),
        decreases hi - i,
    {
        assert(cs@.subrange(i as int, hi as int).take(pat.len() as int) =~= cs@.subrange(
            i as int,
            i + pat.len(),
        ));
        assert(cs@.subrange(i as int, hi as int).skip(pat.len() as int) =~= cs@.subrange(
            i + pat.len(),
            hi as int,
        ));
        i = i + pat.len();
    }
    assert(!(pat.len() <= hi - i && cs@.subrange(i as int, hi as int).take(pat.len() as int)
        == pat@)) by {
        if pat.len() <= hi - i {
            assert(cs@.subrange(i as int, hi as int).take(pat.len() as int) =~= cs@.subrange(
                i as int,
                i + pat.len(),
            ));
        }
    }
    i
}

/// End of `cs[lo..hi]` once every trailing `c` is removed.
fn strip_end_at(cs: &Vec<char>, lo: usize, hi: usize, c: char) -> (r: usize)
    requires
        lo <= hi <= cs.len(),
    ensures
        lo <= r <= hi,
        cs@.subrange(lo as int, r as int) == strip_end_all(cs@.subrange(lo as int, hi as int), c),
{
    let mut j = hi;
    while j > lo && cs[j - 1] == c
        invariant
            lo <= j <= hi <= cs.len(),
            strip_end_all(cs@.subrange(lo as int, j as int), c) == strip_end_all(
                cs@.subrange(lo as int, hi as int),
                c,
            ),
        decreases j - lo,
    {
        assert(cs@.subrange(lo as int, j as int).drop_last() =~= cs@.subrange(lo as int, j - 1));
        j = j - 1;
    }
    j
}

/// The ranges of the pieces of `cs[lo..hi]` between occurrences of `c`.
fn split_at_char(cs: &Vec<char>, lo: usize, hi: usize, c: char) -> (r: Vec<(usize, usize)>)
    requires
        lo <= hi <= cs.len(),
    ensures
        r.len() == split_on(cs@.subrange(lo as int, hi as int), c).len(),
        forall|i: int|
            0 <= i < r.len() ==> lo <= (#[trigger] r[i]).0 <= r[i].1 <= hi && cs@.subrange(
                r[i].0 as int,
                r[i].1 as int,
            ) == split_on(cs@.subrange(lo as int, hi as int), c)[i],
{
    let mut parts: Vec<(usize, usize)> = Vec::new();
    let ghost done_parts: Seq<Seq<char>> = Seq::empty();
    let mut pos = lo;
    let mut done = false;
    while !done
        invariant
            lo <= pos <= hi <= cs.len(),
            parts.len() == done_parts.len(),
            forall|i: int|
                0 <= i < parts.len() ==> lo <= (#[trigger] parts[i]).0 <= parts[i].1 <= hi
                    && cs@.subrange(parts[i].0 as int, parts[i].1 as int) == done_parts[i],
            done ==> done_parts == split_on(cs@.subrange(lo as int, hi as int), c),
            !done ==> done_parts + split_on(cs@.subrange(pos as int, hi as int), c) == split_on(
                cs@.subrange(lo as int, hi as int),
                c,
            ),
        decreases hi - pos + (if done { 0int } else { 1int }),
    {
        let k = find_char(cs, pos, hi, c);
        let ghost s = cs@.subrange(pos as int, hi as int);
        parts.push((pos, k));
        proof {
            assert(s.take(k - pos) =~= cs@.subrange(pos as int, k as int));
            done_parts = done_parts.push(cs@.subrange(pos as int, k as int));
        }
        if k == hi {
            assert(split_on(s, c) == seq![s]);
            assert(done_parts =~= done_parts.drop_last() + split_on(s, c));
            done = true;
        } else {
            assert(s.skip(k - pos + 1) =~= cs@.subrange(k + 1, hi as int));
            assert(done_parts + split_on(cs@.subrange(k + 1, hi as int), c) =~= done_parts.drop_last()
                + split_on(s, c));
            pos = k + 1;
        }
    }
    parts
}

fn byte_at(cs: &Vec<char>, lo: usize, hi: usize) -> (r: Option<u8>)
    requires
        lo <= hi <= cs.len(),
    ensures
        r == byte_value(cs@.subrange(lo as int, hi as int)),
{
    let ghost d = cs@.subrange(lo as int, hi as int);
    if lo == hi {
        return None;
    }
    let mut acc: u32 = 0;
    let mut j = lo;
    while j < hi
        invariant
            lo <= j <= hi <= cs.len(),
            d == cs@.subrange(lo as int, hi as int),
            all_digits(d.take(j - lo)),
            acc == if digits_value(d.take(j - lo)) <= 256 {
                digits_value(d.take(j - lo))
            } else {
                256
            },
        decreases hi - j,
    {
        let c = cs[j];
        if !('0' <= c && c <= '9') {
            assert(!is_digit(d[j - lo]));
            assert(!all_digits(d));
            return None;
        }
        assert(d.take(j - lo + 1).drop_last() =~= d.take(j - lo));
        assert(d.take(j - lo + 1) =~= d.take(j - lo).push(c));
        let v = (c as u32 - '0' as u32);
        if acc * 10 + v > 256 {
            acc = 256;
        } else {
            acc = acc * 10 + v;
        }
        j = j + 1;
    }
    assert(d.take(hi - lo) =~= d);
    if acc <= 255 {
        Some(acc as u8)
    } else {
        None
    }
}

fn alpha_at(cs: &Vec<char>, lo: usize, hi: usize) -> (r: Option<u8>)
    requires
        lo <= hi <= cs.len(),
    ensures
        r == alpha_value(cs@.subrange(lo as int, hi as int)),
{
    match parse_number(cs, lo, hi) {
        Some(m) => {
            if m <= 0 {
                Some(0)
            } else {
                let v = m * 255 / 1000;
                if v >= 255 {
                    Some(255)
                } else {
                    Some(v as u8)
                }
            }
        },
        None => None,
    }
}

/// The channel value of the trimmed piece `cs[p.0..p.1]`.
fn trimmed_byte(cs: &Vec<char>, p: (usize, usize)) -> (r: Option<u8>)
    requires
        p.0 <= p.1 <= cs.len(),
    ensures
        r == byte_value(trim(cs@.subrange(p.0 as int, p.1 as int))),
{
    let (a, b) = trim_bounds(cs, p.0, p.1);
    byte_at(cs, a, b)
}

impl Color {
    pub fn transparent() -> (c: Color)
        ensures
            c == (Color { r: 0, g: 0, b: 0, a: 0 }),
    {
        Color { r: 0, g: 0, b: 0, a: 0 }
    }

    pub fn black() -> (c: Color)
        ensures
            c == (Color { r: 0, g: 0, b: 0, a: 255 }),
    {
        Color { r: 0, g: 0, b: 0, a: 255 }
    }

    pub fn white() -> (c: Color)
        ensures
            c == (Color { r: 255, g: 255, b: 255, a: 255 }),
    {
        Color { r: 255, g: 255, b: 255, a: 255 }
    }

    /// The CSS text of this color, as SVG paint.
    pub fn to_css(&self) -> (s: String)
        ensures
            s@ == css_text(*self),
    {
        let mut out = String::new();
        if self.a == 255 {
            push_str(&mut out, "#");
            push_hex2(&mut out, self.r);
            push_hex2(&mut out, self.g);
            push_hex2(&mut out, self.b);
        } else if self.a == 0 {
            push_str(&mut out, "none");
        } else {
            push_str(&mut out, "rgba(");
            push_decimal(&mut out, self.r as u64);
            push_str(&mut out, ",");
            push_decimal(&mut out, self.g as u64);
            push_str(&mut out, ",");
            push_decimal(&mut out, self.b as u64);
            push_str(&mut out, ",0.");
            push_padded(&mut out, ((self.a as u64) * 2000 + 255) / 510, 3);
            push_str(&mut out, ")");
        }
        out
    }

    /// Parses a color; `None` when the text denotes none.
    pub fn parse(s: &str) -> (r: Option<Color>)
        ensures
            r == color_value(s@),
    {
        let cs = to_chars(s);
        let (lo, hi) = trim_bounds(&cs, 0, cs.len());
        assert(cs@.subrange(0, cs.len() as int) =~= s@);
        let ghost t = cs@.subrange(lo as int, hi as int);
        if lo < hi && cs[lo] == '#' {
            assert(t.drop_first() =~= cs@.subrange(lo + 1, hi as int));
            return hex_color_at(&cs, lo + 1, hi);
        }
        let rgb = to_chars("rgb");
        proof {
            reveal_strlit("rgb");
        }
        if starts_with_at(&cs, lo, hi, &rgb) {
            assert(t.take(3) =~= cs@.subrange(lo as int, lo + 3));
            let rgba = to_chars("rgba");
            let open = to_chars("(");
            proof {
                reveal_strlit("rgba");
                reveal_strlit("(");
            }
            let i1 = strip_all_at(&cs, lo, hi, &rgba);
            let i2 = strip_all_at(&cs, i1, hi, &rgb);
            let i3 = strip_all_at(&cs, i2, hi, &open);
            let j = strip_end_at(&cs, i3, hi, ')');
            assert(cs@.subrange(i3 as int, j as int) == rgb_inner(t));
            let parts = split_at_char(&cs, i3, j, ',');
            if parts.len() >= 3 {
                let r = trimmed_byte(&cs, parts[0]);
                let g = trimmed_byte(&cs, parts[1]);
                let b = trimmed_byte(&cs, parts[2]);
                if r.is_none() || g.is_none() || b.is_none() {
                    return None;
                }
                if parts.len() >= 4 {
                    let (a0, a1) = trim_bounds(&cs, parts[3].0, parts[3].1);
                    let a = alpha_at(&cs, a0, a1);
                    if a.is_none() {
                        return None;
                    }
                    return Some(Color { r: r.unwrap(), g: g.unwrap(), b: b.unwrap(), a: a.unwrap() });
                }
                return Some(Color { r: r.unwrap(), g: g.unwrap(), b: b.unwrap(), a: 255 });
            }
        } else {
            assert(!(t.len() >= 3 && t.take(3) == "rgb"@)) by {
                if t.len() >= 3 {
                    assert(t.take(3) =~= cs@.subrange(lo as int, lo + 3));
                }
            }
        }
        let text = string_of(&cs, lo, hi);
        let lower = to_lower(text.as_str());
        let low = to_chars(lower.as_str());
        let n = low.len();
        assert(low@.subrange(0, n as int) =~= low@);
        if equals_at(&low, 0, n, "transparent") {
            Some(Color::transparent())
        } else if equals_at(&low, 0, n, "black") {
            Some(Color::black())
        } else if equals_at(&low, 0, n, "white") {
            Some(Color::white())
        } else if equals_at(&low, 0, n, "red") {
            Some(Color { r: 255, g: 0, b: 0, a: 255 })
        } else if equals_at(&low, 0, n, "green") {
            Some(Color { r: 0, g: 128, b: 0, a: 255 })
        } else if equals_at(&low, 0, n, "blue") {
            Some(Color { r: 0, g: 0, b: 255, a: 255 })
        } else {
            None
        }
    }
}

fn hex_digit_char(n: u8) -> (c: char)
    requires
        n < 16,
    ensures
        c == hex_char(n as nat),
{
    if n < 10 {
        crate::strings::digit(n as u64)
    } else if n == 10 {
        'a'
    } else if n == 11 {
        'b'
    } else if n == 12 {
        'c'
    } else if n == 13 {
        'd'
    } else if n == 14 {
        'e'
    } else {
        'f'
    }
}

fn push_hex2(out: &mut String, n: u8)
    ensures
        final(out)@ == old(out)@ + hex2(n),
{
    push_char(out, hex_digit_char(n / 16));
    push_char(out, hex_digit_char(n % 16));
    assert(final(out)@ =~= old(out)@ + hex2(n));
}

proof fn lemma_digit_char(d: nat)
    requires
        d < 10,
    ensures
        is_digit(crate::strings::digit_char(d)),
        crate::num::digit_of(crate::strings::digit_char(d)) == d,
{
}

proof fn lemma_decimal(n: nat)
    ensures
        decimal(n).len() > 0,
        all_digits(decimal(n)),
        digits_value(decimal(n)) == n,
    decreases n,
{
    lemma_digit_char(n % 10);
    if n >= 10 {
        lemma_decimal(n / 10);
        assert(decimal(n).drop_last() =~= decimal(n / 10));
        assert(n == (n / 10) * 10 + n % 10) by {
            vstd::arithmetic::div_mod::lemma_fundamental_div_mod(n as int, 10);
        }
        assert forall|i: int| 0 <= i < decimal(n).len() implies is_digit(#[trigger] decimal(n)[i]) by {
            if i < decimal(n).len() - 1 {
                assert(decimal(n)[i] == decimal(n / 10)[i]);
            }
        }
        assert(digits_value(decimal(n)) == digits_value(decimal(n / 10)) * 10
            + crate::num::digit_of(crate::strings::digit_char(n % 10)));
    } else {
        assert(decimal(n).drop_last() =~= Seq::<char>::empty());
        assert(digits_value(Seq::<char>::empty()) == 0);
        assert(digits_value(decimal(n)) == digits_value(Seq::<char>::empty()) * 10
            + crate::num::digit_of(crate::strings::digit_char(n)));
    }
}

proof fn lemma_padded(n: nat, w: nat)
    ensures
        padded(n, w).len() == w,
        all_digits(padded(n, w)),
        digits_value(padded(n, w)) == n % crate::num::pow10(w),
    decreases w,
{
    if w > 0 {
        lemma_padded(n / 10, (w - 1) as nat);
        lemma_digit_char(n % 10);
        assert(padded(n, w).drop_last() =~= padded(n / 10, (w - 1) as nat));
        let p = crate::num::pow10((w - 1) as nat);
        assert(p > 0) by {
            lemma_pow10_positive((w - 1) as nat);
        }
        assert((n / 10) % p * 10 + n % 10 == n % (10 * p)) by {
            vstd::arithmetic::div_mod::lemma_breakdown(n as int, 10, p as int);
        }
    }
}

proof fn lemma_pow10_positive(n: nat)
    ensures
        crate::num::pow10(n) > 0,
    decreases n,
{
    if n > 0 {
        lemma_pow10_positive((n - 1) as nat);
    }
}

proof fn lemma_index_of_first(x: Seq<char>, y: Seq<char>, c: char)
    requires
        forall|i: int| 0 <= i < x.len() ==> x[i] != c,
    ensures
        index_of(x + y, c) == x.len() + index_of(y, c),
    decreases x.len(),
{
    if x.len() > 0 {
        assert((x + y).drop_first() =~= x.drop_first() + y);
        lemma_index_of_first(x.drop_first(), y, c);
    } else {
        assert(x + y =~= y);
    }
}

proof fn lemma_split_cons(x: Seq<char>, y: Seq<char>, c: char)
    requires
        forall|i: int| 0 <= i < x.len() ==> x[i] != c,
    ensures
        split_on(x + seq![c] + y, c) == seq![x] + split_on(y, c),
{
    let s = x + seq![c] + y;
    lemma_index_of_first(x, seq![c] + y, c);
    assert(x + (seq![c] + y) =~= s);
    assert(index_of(seq![c] + y, c) == 0);
    assert(s.take(x.len() as int) =~= x);
    assert(s.skip(x.len() as int + 1) =~= y);
}

proof fn lemma_split_none(x: Seq<char>, c: char)
    requires
        forall|i: int| 0 <= i < x.len() ==> x[i] != c,
    ensures
        split_on(x, c) == seq![x],
{
    lemma_index_of_first(x, Seq::empty(), c);
    assert(x + Seq::<char>::empty() =~= x);
}

proof fn lemma_trim_unchanged(s: Seq<char>)
    requires
        s.len() > 0,
        !crate::strings::is_space(s[0]),
        !crate::strings::is_space(s.last()),
    ensures
        trim(s) == s,
{
    assert(crate::strings::trim_start(s) == s);
    assert(crate::strings::trim_end(s) == s);
}

proof fn lemma_byte_of_decimal(n: u8)
    ensures
        byte_value(decimal(n as nat)) == Some(n),
        trim(decimal(n as nat)) == decimal(n as nat),
        forall|i: int| 0 <= i < decimal(n as nat).len() ==> decimal(n as nat)[i] != ',',
{
    let d = decimal(n as nat);
    lemma_decimal(n as nat);
    assert(is_digit(d[0]) && is_digit(d.last()));
    lemma_trim_unchanged(d);
    assert forall|i: int| 0 <= i < d.len() implies d[i] != ',' by {
        assert(is_digit(d[i]));
    }
}

/// The argument list of the `rgba(...)` text of `c`.
spec fn rgba_args(c: Color) -> Seq<char> {
    decimal(c.r as nat) + seq![','] + (decimal(c.g as nat) + seq![','] + (decimal(c.b as nat)
        + seq![','] + alpha_arg(alpha_thousandths(c.a))))
}

spec fn alpha_arg(q: nat) -> Seq<char> {
    seq!['0', '.'] + padded(q, 3)
}

proof fn lemma_alpha_arg(q: nat)
    requires
        q < 1000,
    ensures
        trim(alpha_arg(q)) == alpha_arg(q),
        alpha_value(alpha_arg(q)) == Some(alpha_byte(q as int)),
        forall|i: int| 0 <= i < alpha_arg(q).len() ==> alpha_arg(q)[i] != ',',
        alpha_arg(q).last() != ')',
{
    let frac3 = padded(q, 3);
    let al = alpha_arg(q);
    lemma_padded(q, 3);
    assert(crate::num::pow10(3) == 1000) by {
        reveal_with_fuel(crate::num::pow10, 4);
    }
    assert(is_digit(frac3[0]) && is_digit(frac3[2]));
    assert(al.last() == frac3[2]);
    lemma_trim_unchanged(al);
    assert forall|i: int| 0 <= i < al.len() implies al[i] != ',' by {
        if i >= 2 {
            assert(al[i] == frac3[i - 2]);
            assert(is_digit(frac3[i - 2]));
        }
    }
    assert(crate::num::unsigned_part(al) == al);
    assert(al.drop_first().drop_first() =~= frac3);
    assert(index_of(al, '.') == 1) by {
        assert(al.drop_first()[0] == '.');
        assert(index_of(al.drop_first(), '.') == 0);
        assert(index_of(al, '.') == 1 + index_of(al.drop_first(), '.'));
    }
    assert(crate::num::whole_part(al) =~= seq!['0']);
    assert(crate::num::fraction_part(al) =~= frac3);
    assert(all_digits(seq!['0']));
    assert(digits_value(seq!['0']) == 0) by {
        assert(seq!['0'].drop_last() =~= Seq::<char>::empty());
        assert(digits_value(Seq::<char>::empty()) == 0);
        assert(digits_value(seq!['0']) == digits_value(Seq::<char>::empty()) * 10
            + crate::num::digit_of('0'));
    }
    reveal_strlit("000");
    assert((frac3 + "000"@).take(3) =~= frac3);
}

proof fn lemma_strip_rgba(inner: Seq<char>)
    requires
        inner.len() > 0,
        is_digit(inner[0]),
        inner.last() != ')',
        !crate::strings::is_space(inner.last()),
    ensures
        trim("rgba("@ + inner + ")"@) == "rgba("@ + inner + ")"@,
        rgb_inner("rgba("@ + inner + ")"@) == inner,
{
    let s = "rgba("@ + inner + ")"@;
    reveal_strlit("rgba(");
    reveal_strlit(")");
    reveal_strlit("rgba");
    reveal_strlit("rgb");
    reveal_strlit("(");
    lemma_trim_unchanged(s);
    assert(s.take(4) =~= "rgba"@);
    let s4 = s.skip(4);
    assert(s4 =~= "("@ + inner + ")"@);
    assert(strip_all(s4, "rgba"@) == s4) by {
        if s4.len() >= 4 {
            assert(s4.take(4)[0] == '(');
        }
    }
    assert(strip_all(s, "rgba"@) == s4);
    assert(strip_all(s4, "rgb"@) == s4) by {
        assert(s4.take(3)[0] == '(');
    }
    let s5 = inner + ")"@;
    assert(s4.take(1) =~= "("@);
    assert(s4.skip(1) =~= s5);
    assert(strip_all(s5, "("@) == s5) by {
        assert(s5.take(1)[0] == inner[0]);
    }
    assert(strip_all(s4, "("@) == s5);
    assert(s5.drop_last() =~= inner);
    assert(strip_end_all(inner, ')') == inner);
    assert(strip_end_all(s5, ')') == inner);
}

#[verifier::rlimit(40)]
proof fn lemma_rgba_inner(c: Color)
    requires
        0 < c.a < 255,
    ensures
        css_text(c) == "rgba("@ + rgba_args(c) + ")"@,
        trim(css_text(c)) == css_text(c),
        rgb_inner(css_text(c)) == rgba_args(c),
{
    let q = alpha_thousandths(c.a);
    assert(q < 1000) by {
        assert(c.a as nat * 2000 + 255 < 510000);
    }
    lemma_alpha_arg(q);
    lemma_decimal(c.r as nat);
    let inner = rgba_args(c);
    reveal_strlit("rgba(");
    reveal_strlit(",");
    reveal_strlit(",0.");
    reveal_strlit(")");
    assert(css_text(c) =~= "rgba("@ + inner + ")"@);
    assert(inner[0] == decimal(c.r as nat)[0]);
    assert(inner.last() == alpha_arg(q).last());
    lemma_padded(q, 3);
    assert(is_digit(padded(q, 3)[2]));
    assert(alpha_arg(q).last() == padded(q, 3)[2]);
    lemma_strip_rgba(inner);
}

proof fn lemma_rgba_split(c: Color)
    requires
        0 < c.a < 255,
    ensures
        split_on(rgba_args(c), ',') == seq![
            decimal(c.r as nat),
            decimal(c.g as nat),
            decimal(c.b as nat),
            alpha_arg(alpha_thousandths(c.a)),
        ],
{
    let q = alpha_thousandths(c.a);
    assert(q < 1000) by {
        assert(c.a as nat * 2000 + 255 < 510000);
    }
    lemma_alpha_arg(q);
    let dr = decimal(c.r as nat);
    let dg = decimal(c.g as nat);
    let db = decimal(c.b as nat);
    let al = alpha_arg(q);
    lemma_byte_of_decimal(c.r);
    lemma_byte_of_decimal(c.g);
    lemma_byte_of_decimal(c.b);
    lemma_split_none(al, ',');
    lemma_split_cons(db, al, ',');
    lemma_split_cons(dg, db + seq![','] + al, ',');
    lemma_split_cons(dr, dg + seq![','] + (db + seq![','] + al), ',');
    assert(db + seq![','] + al =~= db + (seq![','] + al));
    assert(dg + seq![','] + (db + seq![','] + al) =~= dg + (seq![','] + (db + (seq![','] + al))));
    assert(rgba_args(c) =~= dr + seq![','] + (dg + seq![','] + (db + seq![','] + al)));
    assert(split_on(rgba_args(c), ',') =~= seq![dr, dg, db, al]);
}

proof fn lemma_alpha_close(a: int, q: int)
    requires
        0 < a < 255,
        q == (a * 2000 + 255) / 510,
    ensures
        alpha_byte(q) as int == q * 255 / 1000,
        a - 1 <= q * 255 / 1000 <= a,
{
    assert(510 * q <= 2000 * a + 255 && 2000 * a + 255 < 510 * q + 510);
    assert(a - 1 <= q * 255 / 1000 <= a) by (nonlinear_arith)
        requires
            510 * q <= 2000 * a + 255,
            2000 * a + 255 < 510 * q + 510,
            q >= 0,
    ;
    assert(q > 0);
}

/// Printing a color whose alpha is strictly between 0 and 255 and parsing
/// the text back gives the same red, green and blue, and an alpha at most
/// one step below the alpha that was printed.
pub proof fn lemma_color_round_trip(c: Color)
    requires
        0 < c.a < 255,
    ensures
        color_value(css_text(c)) is Some,
        color_value(css_text(c))->0.r == c.r,
        color_value(css_text(c))->0.g == c.g,
        color_value(css_text(c))->0.b == c.b,
        c.a - 1 <= color_value(css_text(c))->0.a <= c.a,
{
    let q = alpha_thousandths(c.a);
    assert(q < 1000) by {
        assert(c.a as nat * 2000 + 255 < 510000);
    }
    let s = css_text(c);
    lemma_rgba_inner(c);
    lemma_rgba_split(c);
    lemma_alpha_arg(q);
    lemma_byte_of_decimal(c.r);
    lemma_byte_of_decimal(c.g);
    lemma_byte_of_decimal(c.b);
    lemma_alpha_close(c.a as int, q as int);
    reveal_strlit("rgba(");
    reveal_strlit("rgb");
    assert(s[0] == 'r');
    assert(s.take(3) =~= "rgb"@);
}

} // verus!
