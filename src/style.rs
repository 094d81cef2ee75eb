//! The element tree and its style records, with the shorthand values they
//! hold (dimensions, spacing, corner radii).
use vstd::prelude::*;
use crate::color::{Color, strip_end_all};
use crate::num::{all_digits, digits_value, is_digit, number_value, parse_number};
use crate::strings::{equals_at, is_space, lowercase_of, space_char, to_chars, to_lower};

verus! {

/// `s` split at white space, without empty pieces.
pub open spec fn words(s: Seq<char>) -> Seq<Seq<char>>
    decreases s.len(),
{
    if s.len() == 0 {
        Seq::empty()
    } else {
        let w = words(s.drop_last());
        if is_space(s.last()) {
            w
        } else if s.len() >= 2 && !is_space(s[s.len() - 2]) {
            w.update(w.len() - 1, w.last().push(s.last()))
        } else {
            w.push(seq![s.last()])
        }
    }
}

/// Every word is a decimal number.
pub open spec fn all_numbers(ws: Seq<Seq<char>>) -> bool {
    forall|i: int| 0 <= i < ws.len() ==> (#[trigger] number_value(ws[i])) is Some
}

/// The values of words that are all decimal numbers, in order.
pub open spec fn word_values(ws: Seq<Seq<char>>) -> Seq<int> {
    ws.map_values(|w: Seq<char>| number_value(w)->0)
}

/// A shorthand text is valid when each of its words is a number.
pub open spec fn shorthand_valid(s: Seq<char>) -> bool {
    all_numbers(words(s))
}

/// The numbers of a valid shorthand text, one per word.
pub open spec fn shorthand_values(s: Seq<char>) -> Seq<int> {
    word_values(words(s))
}

/// Edges `[top, right, bottom, left]` from one to four values; any other
/// count gives all zeros.
pub open spec fn edges_of(v: Seq<int>) -> Seq<int> {
    if v.len() == 1 {
        seq![v[0], v[0], v[0], v[0]]
    } else if v.len() == 2 {
        seq![v[0], v[1], v[0], v[1]]
    } else if v.len() == 3 {
        seq![v[0], v[1], v[2], v[1]]
    } else if v.len() == 4 {
        seq![v[0], v[1], v[2], v[3]]
    } else {
        seq![0, 0, 0, 0]
    }
}

/// Corners `[top-left, top-right, bottom-right, bottom-left]` from one, two
/// or four values; any other count, three included, gives all zeros.
pub open spec fn corners_of(v: Seq<int>) -> Seq<int> {
    if v.len() == 1 {
        seq![v[0], v[0], v[0], v[0]]
    } else if v.len() == 2 {
        seq![v[0], v[1], v[0], v[1]]
    } else if v.len() == 4 {
        seq![v[0], v[1], v[2], v[3]]
    } else {
        seq![0, 0, 0, 0]
    }
}

pub open spec fn ints4(a: [i64; 4]) -> Seq<int> {
    seq![a[0] as int, a[1] as int, a[2] as int, a[3] as int]
}

/// The value of word `i` of a shorthand text.
pub open spec fn word_value(s: Seq<char>, i: int) -> int {
    number_value(words(s)[i])->0
}

/// For a shorthand whose words are all numbers `v0 .. vn`, the edges are
/// `[v0, v0, v0, v0]`, `[v0, v1, v0, v1]`, `[v0, v1, v2, v1]` or
/// `[v0, v1, v2, v3]` for one to four words, and zeros for any other count.
pub proof fn lemma_edges_rule(s: Seq<char>)
    requires
        shorthand_valid(s),
    ensures
        edges_of(shorthand_values(s)) == if words(s).len() == 1 {
            seq![word_value(s, 0), word_value(s, 0), word_value(s, 0), word_value(s, 0)]
        } else if words(s).len() == 2 {
            seq![word_value(s, 0), word_value(s, 1), word_value(s, 0), word_value(s, 1)]
        } else if words(s).len() == 3 {
            seq![word_value(s, 0), word_value(s, 1), word_value(s, 2), word_value(s, 1)]
        } else if words(s).len() == 4 {
            seq![word_value(s, 0), word_value(s, 1), word_value(s, 2), word_value(s, 3)]
        } else {
            seq![0, 0, 0, 0]
        },
{
}

/// For a shorthand whose words are all numbers `v0 .. vn`, the corners are
/// `[v0, v0, v0, v0]`, `[v0, v1, v0, v1]` or `[v0, v1, v2, v3]` for one, two
/// or four words, and zeros for any other count, three included.
pub proof fn lemma_corners_rule(s: Seq<char>)
    requires
        shorthand_valid(s),
    ensures
        corners_of(shorthand_values(s)) == if words(s).len() == 1 {
            seq![word_value(s, 0), word_value(s, 0), word_value(s, 0), word_value(s, 0)]
        } else if words(s).len() == 2 {
            seq![word_value(s, 0), word_value(s, 1), word_value(s, 0), word_value(s, 1)]
        } else if words(s).len() == 4 {
            seq![word_value(s, 0), word_value(s, 1), word_value(s, 2), word_value(s, 3)]
        } else {
            seq![0, 0, 0, 0]
        },
{
}

/// The numbers of the shorthand text `s`, each in thousandths; `None` when
/// some word of it is not a number.
pub fn shorthand_numbers(s: &str) -> (r: Option<Vec<i64>>)
    ensures
        r is Some <==> shorthand_valid(s@),
        r matches Some(v) ==> v@.len() == shorthand_values(s@).len() && forall|i: int|
            0 <= i < v@.len() ==> v@[i] as int == #[trigger] shorthand_values(s@)[i],
{
    let cs = to_chars(s);
    let mut vals: Vec<i64> = Vec::new();
    let ghost done: Seq<Seq<char>> = Seq::empty();
    let mut ok = true;
    let mut in_word = false;
    let mut start: usize = 0;
    let mut i: usize = 0;
    while i < cs.len()
        invariant
            i <= cs.len(),
            cs@ == s@,
            start <= i,
            in_word ==> start < i,
            in_word ==> words(cs@.take(i as int)) == done.push(cs@.subrange(start as int, i as int)),
            !in_word ==> words(cs@.take(i as int)) == done,
            in_word ==> forall|j: int| start <= j < i ==> !is_space(#[trigger] cs@[j]),
            in_word ==> (start == 0 || is_space(cs@[start - 1])),
            !in_word ==> (i == 0 || is_space(cs@[i - 1])),
            ok == all_numbers(done),
            ok ==> vals@.len() == done.len(),
            ok ==> forall|j: int| 0 <= j < vals@.len() ==> vals@[j] as int == #[trigger] number_value(done[j])->0,
        decreases cs.len() - i,
    {
        let c = cs[i];
        let ghost pre = cs@.take(i as int);
        assert(cs@.take(i + 1).drop_last() =~= pre);
        if space_char(c) {
            if in_word {
                let v = parse_number(&cs, start, i);
                proof {
                    let wd = cs@.subrange(start as int, i as int);
                    assert(done.push(wd).drop_last() =~= done);
                    lemma_all_numbers_push(done, wd);
                    done = done.push(wd);
                }
                match v {
                    Some(x) => {
                        vals.push(x);
                    },
                    None => {
                        ok = false;
                    },
                }
            }
            in_word = false;
        } else {
            if in_word {
                assert(cs@.take(i + 1)[i - 1] == cs@[i - 1]);
                assert(cs@.subrange(start as int, i + 1) =~= cs@.subrange(start as int, i as int).push(c));
            } else {
                assert(cs@.subrange(i as int, i + 1) =~= seq![c]);
                if i > 0 {
                    assert(cs@.take(i + 1)[i - 1] == cs@[i - 1]);
                }
                start = i;
            }
            in_word = true;
        }
        i = i + 1;
    }
    assert(cs@.take(cs.len() as int) =~= cs@);
    if in_word {
        let v = parse_number(&cs, start, cs.len());
        proof {
            let wd = cs@.subrange(start as int, cs.len() as int);
            lemma_all_numbers_push(done, wd);
            done = done.push(wd);
        }
        match v {
            Some(x) => {
                vals.push(x);
            },
            None => {
                ok = false;
            },
        }
    }
    if ok {
        Some(vals)
    } else {
        None
    }
}

proof fn lemma_all_numbers_push(ws: Seq<Seq<char>>, w: Seq<char>)
    ensures
        all_numbers(ws.push(w)) == (all_numbers(ws) && number_value(w) is Some),
{
    let p = ws.push(w);
    if all_numbers(p) {
        assert(number_value(p[ws.len() as int]) is Some);
        assert forall|i: int| 0 <= i < ws.len() implies (#[trigger] number_value(ws[i])) is Some by {
            assert(number_value(p[i]) is Some);
        }
    }
    if all_numbers(ws) && number_value(w) is Some {
        assert forall|i: int| 0 <= i < p.len() implies (#[trigger] number_value(p[i])) is Some by {
            if i < ws.len() {
                assert(p[i] == ws[i]);
            }
        }
    }
}

/// A length: thousandths of a pixel, or a percentage of the container.
#[derive(Debug, Clone, PartialEq, Eq)]
pub enum Dimension {
    Px(i64),
    /// A percentage text such as `"50%"`.
    Percent(String),
}

/// The percentage (in thousandths of a percent) written in a text such as
/// `"50%"`; zero when it is not a number.
pub open spec fn percent_value(s: Seq<char>) -> int {
    match number_value(strip_end_all(s, '%')) {
        Some(v) => v,
        None => 0,
    }
}

/// `a / b` rounded toward zero.
pub open spec fn div_toward_zero(a: int, b: int) -> int
    recommends
        b > 0,
{
    if a >= 0 {
        a / b
    } else {
        -((-a) / b)
    }
}

/// Largest container size, in thousandths of a pixel, that a percentage is
/// resolved against.
pub const MAX_EXTENT: i64 = 1_000_000_000_000;

/// The percentage written in a text, zero when it is not a number.
pub fn percent_text(s: &str) -> (r: i64)
    ensures
        r == percent_value(s@),
        -100_000_000_000 < r < 100_000_000_000,
{
    let cs = to_chars(s);
    let mut hi = cs.len();
    assert(cs@.take(cs.len() as int) =~= cs@);
    while hi > 0 && cs[hi - 1] == '%'
        invariant
            hi <= cs.len(),
            cs@ == s@,
            strip_end_all(cs@.take(hi as int), '%') == strip_end_all(s@, '%'),
        decreases hi,
    {
        assert(cs@.take(hi as int).drop_last() =~= cs@.take(hi - 1));
        hi = hi - 1;
    }
    assert(cs@.take(cs.len() as int) =~= cs@);
    assert(cs@.subrange(0, hi as int) =~= cs@.take(hi as int));
    match parse_number(&cs, 0, hi) {
        Some(v) => v,
        None => 0,
    }
}

impl Dimension {
    /// The length in thousandths of a pixel, a percentage taken of
    /// `container_size` and rounded toward zero.
    pub fn to_px(&self, container_size: i64) -> (r: i64)
        requires
            -MAX_EXTENT <= container_size <= MAX_EXTENT,
        ensures
            r == match self {
                Dimension::Px(v) => *v as int,
                Dimension::Percent(s) => div_toward_zero(
                    container_size * percent_value(s@),
                    100_000,
                ),
            },
    {
        match self {
            Dimension::Px(v) => *v,
            Dimension::Percent(s) => {
                let p = percent_text(s.as_str());
                assert(-100_000_000_000_000_000_000_000 <= container_size * p
                    <= 100_000_000_000_000_000_000_000) by (nonlinear_arith)
                    requires
                        -1_000_000_000_000 <= container_size <= 1_000_000_000_000,
                        -100_000_000_000 < p < 100_000_000_000,
                ;
                let prod = container_size as i128 * p as i128;
                if prod >= 0 {
                    (prod / 100_000) as i64
                } else {
                    (0 - ((0 - prod) / 100_000)) as i64
                }
            },
        }
    }
}

/// Margin or padding: one value for every edge, or a shorthand text.
#[derive(Debug, Clone, PartialEq, Eq)]
pub enum Spacing {
    Uniform(i64),
    /// A shorthand such as `"10 20"`.
    Multi(String),
}

impl Default for Spacing {
    fn default() -> (r: Spacing)
        ensures
            r == Spacing::Uniform(0),
    {
        Spacing::Uniform(0)
    }
}

impl Spacing {
    /// `[top, right, bottom, left]`: one value for all; two for vertical and
    /// horizontal; three for top, horizontal, bottom; four as written; any
    /// other count gives zeros. `None` when a word of a shorthand text is
    /// not a number.
    pub fn to_edges(&self) -> (r: Option<[i64; 4]>)
        ensures
            r is Some <==> match self {
                Spacing::Uniform(_) => true,
                Spacing::Multi(s) => shorthand_valid(s@),
            },
            r matches Some(e) ==> ints4(e) == match self {
                Spacing::Uniform(v) => seq![*v as int, *v as int, *v as int, *v as int],
                Spacing::Multi(s) => edges_of(shorthand_values(s@)),
            },
    {
        match self {
            Spacing::Uniform(v) => Some([*v, *v, *v, *v]),
            Spacing::Multi(s) => {
                let p = match shorthand_numbers(s.as_str()) {
                    Some(p) => p,
                    None => {
                        return None;
                    },
                };
                let r = if p.len() == 1 {
                    [p[0], p[0], p[0], p[0]]
                } else if p.len() == 2 {
                    [p[0], p[1], p[0], p[1]]
                } else if p.len() == 3 {
                    [p[0], p[1], p[2], p[1]]
                } else if p.len() == 4 {
                    [p[0], p[1], p[2], p[3]]
                } else {
                    [0, 0, 0, 0]
                };
                assert(ints4(r) =~= edges_of(shorthand_values(s@)));
                Some(r)
            },
        }
    }
}

/// Corner radii: one value for every corner, or a shorthand text.
#[derive(Debug, Clone, PartialEq, Eq)]
pub enum BorderRadius {
    Uniform(i64),
    /// A shorthand such as `"8 8 0 0"`.
    Multi(String),
}

impl Default for BorderRadius {
    fn default() -> (r: BorderRadius)
        ensures
            r == BorderRadius::Uniform(0),
    {
        BorderRadius::Uniform(0)
    }
}

impl BorderRadius {
    /// `[top-left, top-right, bottom-right, bottom-left]`: one value for all;
    /// two alternate; four as written; any other count (three included)
    /// gives zeros. `None` when a word of a shorthand text is not a number.
    pub fn to_corners(&self) -> (r: Option<[i64; 4]>)
        ensures
            r is Some <==> match self {
                BorderRadius::Uniform(_) => true,
                BorderRadius::Multi(s) => shorthand_valid(s@),
            },
            r matches Some(c) ==> ints4(c) == match self {
                BorderRadius::Uniform(v) => seq![*v as int, *v as int, *v as int, *v as int],
                BorderRadius::Multi(s) => corners_of(shorthand_values(s@)),
            },
    {
        match self {
            BorderRadius::Uniform(v) => Some([*v, *v, *v, *v]),
            BorderRadius::Multi(s) => {
                let p = match shorthand_numbers(s.as_str()) {
                    Some(p) => p,
                    None => {
                        return None;
                    },
                };
                let r = if p.len() == 1 {
                    [p[0], p[0], p[0], p[0]]
                } else if p.len() == 2 {
                    [p[0], p[1], p[0], p[1]]
                } else if p.len() == 4 {
                    [p[0], p[1], p[2], p[3]]
                } else {
                    [0, 0, 0, 0]
                };
                assert(ints4(r) =~= corners_of(shorthand_values(s@)));
                Some(r)
            },
        }
    }
}

/// How a box takes part in layout.
#[derive(Debug, Clone, Copy, PartialEq, Eq, Structural)]
pub enum Display {
    Block,
    Flex,
    /// Takes no part in layout (`none`).
    Hidden,
}

impl Default for Display {
    fn default() -> (r: Display)
        ensures
            r == Display::Block,
    {
        Display::Block
    }
}

/// Main axis of a flex container.
#[derive(Debug, Clone, Copy, PartialEq, Eq, Structural)]
pub enum FlexDirection {
    Row,
    Column,
    RowReverse,
    ColumnReverse,
}

impl Default for FlexDirection {
    fn default() -> (r: FlexDirection)
        ensures
            r == FlexDirection::Row,
    {
        FlexDirection::Row
    }
}

/// Distribution along the main axis.
#[derive(Debug, Clone, Copy, PartialEq, Eq, Structural)]
pub enum JustifyContent {
    FlexStart,
    FlexEnd,
    Center,
    SpaceBetween,
    SpaceAround,
    SpaceEvenly,
}

impl Default for JustifyContent {
    fn default() -> (r: JustifyContent)
        ensures
            r == JustifyContent::FlexStart,
    {
        JustifyContent::FlexStart
    }
}

/// Alignment along the cross axis.
#[derive(Debug, Clone, Copy, PartialEq, Eq, Structural)]
pub enum AlignItems {
    FlexStart,
    FlexEnd,
    Center,
    Stretch,
    Baseline,
}

impl Default for AlignItems {
    fn default() -> (r: AlignItems)
        ensures
            r == AlignItems::Stretch,
    {
        AlignItems::Stretch
    }
}

/// Whether flex items wrap onto several lines.
#[derive(Debug, Clone, Copy, PartialEq, Eq, Structural)]
pub enum FlexWrap {
    Nowrap,
    Wrap,
}

impl Default for FlexWrap {
    fn default() -> (r: FlexWrap)
        ensures
            r == FlexWrap::Nowrap,
    {
        FlexWrap::Nowrap
    }
}

/// Horizontal alignment of text lines.
#[derive(Debug, Clone, Copy, PartialEq, Eq, Structural)]
pub enum TextAlign {
    Left,
    Center,
    Right,
    Justify,
}

impl Default for TextAlign {
    fn default() -> (r: TextAlign)
        ensures
            r == TextAlign::Left,
    {
        TextAlign::Left
    }
}

/// How text is drawn.
#[derive(Debug, Clone, Copy, PartialEq, Eq, Structural)]
pub enum TextRendering {
    Text,
    Vector,
}

impl Default for TextRendering {
    fn default() -> (r: TextRendering)
        ensures
            r == TextRendering::Text,
    {
        TextRendering::Text
    }
}

/// How an image fills its box.
#[derive(Debug, Clone, Copy, PartialEq, Eq, Structural)]
pub enum ObjectFit {
    Contain,
    Cover,
    Fill,
}

impl Default for ObjectFit {
    fn default() -> (r: ObjectFit)
        ensures
            r == ObjectFit::Contain,
    {
        ObjectFit::Contain
    }
}

/// A font weight, 100 to 900 by convention.
#[derive(Debug, Clone, Copy, PartialEq, Eq, Structural)]
pub struct FontWeight(pub u16);

impl Default for FontWeight {
    fn default() -> (r: FontWeight)
        ensures
            r == FontWeight(400),
    {
        FontWeight(400)
    }
}

/// A decimal `[+]digits` no greater than 65535.
pub open spec fn u16_value(t: Seq<char>) -> Option<u16> {
    let d = if t.len() > 0 && t[0] == '+' {
        t.drop_first()
    } else {
        t
    };
    if d.len() > 0 && all_digits(d) && digits_value(d) <= 65535 {
        Some(digits_value(d) as u16)
    } else {
        None
    }
}

/// The weight that a text names: `normal`, `bold` (in any case), or a number.
pub open spec fn weight_value(s: Seq<char>) -> Option<FontWeight> {
    if lowercase_of(s) == "normal"@ {
        Some(FontWeight(400))
    } else if lowercase_of(s) == "bold"@ {
        Some(FontWeight(700))
    } else {
        match u16_value(s) {
            Some(n) => Some(FontWeight(n)),
            None => None,
        }
    }
}

fn u16_at(cs: &Vec<char>) -> (r: Option<u16>)
    ensures
        r == u16_value(cs@),
{
    let ghost t = cs@;
    let hi = cs.len();
    let start: usize = if hi > 0 && cs[0] == '+' {
        1
    } else {
        0
    };
    let ghost d = cs@.subrange(start as int, hi as int);
    assert(d =~= (if t.len() > 0 && t[0] == '+' { t.drop_first() } else { t }));
    if start == hi {
        return None;
    }
    let mut acc: u32 = 0;
    let mut j = start;
    while j < hi
        invariant
            start <= j <= hi == cs.len(),
            d == cs@.subrange(start as int, hi as int),
            t == cs@,
            d == (if t.len() > 0 && t[0] == '+' { t.drop_first() } else { t }),
            all_digits(d.take(j - start)),
            acc == if digits_value(d.take(j - start)) <= 65536 {
                digits_value(d.take(j - start))
            } else {
                65536
            },
        decreases hi - j,
    {
        let c = cs[j];
        if !('0' <= c && c <= '9') {
            assert(!is_digit(d[j - start]));
            assert(!all_digits(d));
            return None;
        }
        assert(d.take(j - start + 1).drop_last() =~= d.take(j - start));
        assert(d.take(j - start + 1) =~= d.take(j - start).push(c));
        let v = (c as u32 - '0' as u32);
        if acc * 10 + v > 65536 {
            acc = 65536;
        } else {
            acc = acc * 10 + v;
        }
        j = j + 1;
    }
    assert(d.take(hi - start) =~= d);
    if acc <= 65535 {
        Some(acc as u16)
    } else {
        None
    }
}

impl FontWeight {
    /// The weight that a text names; `None` when it names none.
    pub fn parse(s: &str) -> (r: Option<FontWeight>)
        ensures
            r == weight_value(s@),
    {
        let lower = to_lower(s);
        let low = to_chars(lower.as_str());
        assert(low@.subrange(0, low.len() as int) =~= low@);
        if equals_at(&low, 0, low.len(), "normal") {
            Some(FontWeight(400))
        } else if equals_at(&low, 0, low.len(), "bold") {
            Some(FontWeight(700))
        } else {
            let cs = to_chars(s);
            match u16_at(&cs) {
                Some(n) => Some(FontWeight(n)),
                None => None,
            }
        }
    }
}

/// Style of a block container. Lengths are in thousandths of a pixel and
/// opacity in thousandths.
#[derive(Debug, Clone, PartialEq, Eq)]
pub struct BoxStyle {
    pub display: Option<Display>,
    pub width: Option<Dimension>,
    pub height: Option<Dimension>,
    pub min_width: Option<Dimension>,
    pub max_width: Option<Dimension>,
    pub min_height: Option<Dimension>,
    pub max_height: Option<Dimension>,
    pub margin: Option<Spacing>,
    pub padding: Option<Spacing>,
    pub background_color: Option<Color>,
    pub border_width: Option<i64>,
    pub border_color: Option<Color>,
    pub border_radius: Option<BorderRadius>,
    pub opacity: Option<i64>,
}

/// Style of a flex container.
#[derive(Debug, Clone, PartialEq, Eq)]
pub struct FlexStyle {
    pub display: Option<Display>,
    pub width: Option<Dimension>,
    pub height: Option<Dimension>,
    pub min_width: Option<Dimension>,
    pub max_width: Option<Dimension>,
    pub min_height: Option<Dimension>,
    pub max_height: Option<Dimension>,
    pub margin: Option<Spacing>,
    pub padding: Option<Spacing>,
    pub flex_direction: Option<FlexDirection>,
    pub justify_content: Option<JustifyContent>,
    pub align_items: Option<AlignItems>,
    pub gap: Option<i64>,
    pub flex_wrap: Option<FlexWrap>,
    pub background_color: Option<Color>,
    pub border_width: Option<i64>,
    pub border_color: Option<Color>,
    pub border_radius: Option<BorderRadius>,
    pub opacity: Option<i64>,
}

/// Style of a text run. Font size, letter spacing and flex factors are in
/// thousandths; line height is a multiple of the font size, in thousandths.
#[derive(Debug, Clone, PartialEq, Eq)]
pub struct TextStyle {
    pub font_family: Option<String>,
    pub font_size: Option<i64>,
    pub font_weight: Option<FontWeight>,
    pub line_height: Option<i64>,
    pub text_align: Option<TextAlign>,
    pub color: Option<Color>,
    pub letter_spacing: Option<i64>,
    pub text_rendering: Option<TextRendering>,
    pub flex_grow: Option<i64>,
    pub flex_shrink: Option<i64>,
}

/// Style of an image.
#[derive(Debug, Clone, PartialEq, Eq)]
pub struct ImageStyle {
    pub width: Option<Dimension>,
    pub height: Option<Dimension>,
    pub min_width: Option<Dimension>,
    pub max_width: Option<Dimension>,
    pub min_height: Option<Dimension>,
    pub max_height: Option<Dimension>,
    pub margin: Option<Spacing>,
    pub object_fit: Option<ObjectFit>,
    pub border_radius: Option<BorderRadius>,
    pub opacity: Option<i64>,
    pub flex_grow: Option<i64>,
    pub flex_shrink: Option<i64>,
}

/// A node of the input document. Children are in paint and layout order.
#[derive(Debug)]
#[allow(inconsistent_fields)]
pub enum Element {
    Box { style: BoxStyle, children: Vec<Element> },
    Flex { style: FlexStyle, children: Vec<Element> },
    Text { content: String, style: TextStyle },
    /// An image with its intrinsic size in thousandths of a pixel.
    Image { src: String, width: i64, height: i64, style: ImageStyle },
}

} // verus!
