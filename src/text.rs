//! Text layout results, and the estimate used when no font can shape a text.
use vstd::prelude::*;
use crate::render::{MAX_EXTENT, ext};
use crate::strings::{is_space, push_char, space_char, string_of, to_chars};
use crate::style::{div_toward_zero, words};

verus! {

/// A glyph placed within its line, in thousandths of a pixel.
#[derive(Debug, Clone, Copy, PartialEq, Eq, Structural)]
pub struct PositionedGlyph {
    pub glyph_id: u32,
    pub x: i64,
    pub y: i64,
    pub advance: i64,
}

/// One laid-out line of text, with its metrics in thousandths of a pixel.
#[derive(Debug, Clone, PartialEq, Eq)]
pub struct TextLine {
    pub text: String,
    pub baseline: i64,
    pub ascent: i64,
    pub descent: i64,
    pub glyphs: Vec<PositionedGlyph>,
}

/// The lines of a text and the size they take.
#[derive(Debug, Clone, PartialEq, Eq)]
pub struct TextLayoutResult {
    pub width: i64,
    pub height: i64,
    pub lines: Vec<TextLine>,
}

/// Whether a line of `n` characters fits in `max` at `font_size`, each
/// character taking 0.55 of the font size.
pub open spec fn fits(n: int, font_size: int, max: Option<i64>) -> bool {
    match max {
        Some(m) => n * ext(font_size) * 55 <= m * 100,
        None => true,
    }
}

/// Estimated width of `n` characters at `font_size`, in thousandths of a pixel.
pub open spec fn estimate_width(n: int, font_size: int) -> int {
    div_toward_zero(n * ext(font_size) * 55, 100)
}

/// Greedy wrapping of words: lines finished so far and the open line.
pub open spec fn wrap_state(ws: Seq<Seq<char>>, font_size: int, max: Option<i64>) -> (Seq<Seq<char>>, Seq<char>)
    decreases ws.len(),
{
    if ws.len() == 0 {
        (Seq::empty(), Seq::empty())
    } else {
        let (lines, cur) = wrap_state(ws.drop_last(), font_size, max);
        let w = ws.last();
        if cur.len() > 0 && !fits((cur.len() + 1 + w.len()) as int, font_size, max) {
            (lines.push(cur), w)
        } else if cur.len() > 0 {
            (lines, cur + seq![' '] + w)
        } else {
            (lines, w)
        }
    }
}

/// The lines of a text wrapped greedily: a word joins the open line when
/// the line with a space and the word still fits, and starts a new line
/// otherwise; a text without words gives one empty line.
pub open spec fn wrapped_lines(s: Seq<char>, font_size: int, max: Option<i64>) -> Seq<Seq<char>> {
    let (lines, cur) = wrap_state(words(s), font_size, max);
    let all = if cur.len() > 0 {
        lines.push(cur)
    } else {
        lines
    };
    if all.len() == 0 {
        seq![Seq::empty()]
    } else {
        all
    }
}

/// The ranges of the words of `cs`, in order.
fn word_ranges(cs: &Vec<char>) -> (r: Vec<(usize, usize)>)
    ensures
        r@.len() == words(cs@).len(),
        forall|i: int|
            0 <= i < r@.len() ==> (#[trigger] r@[i]).0 < r@[i].1 <= cs.len() && cs@.subrange(
                r@[i].0 as int,
                r@[i].1 as int,
            ) == words(cs@)[i],
{
    let mut out: Vec<(usize, usize)> = Vec::new();
    let ghost done: Seq<Seq<char>> = Seq::empty();
    let mut in_word = false;
    let mut start: usize = 0;
    let mut i: usize = 0;
    while i < cs.len()
        invariant
            i <= cs.len(),
            start <= i,
            in_word ==> start < i,
            in_word ==> words(cs@.take(i as int)) == done.push(cs@.subrange(start as int, i as int)),
            !in_word ==> words(cs@.take(i as int)) == done,
            in_word ==> forall|j: int| start <= j < i ==> !is_space(#[trigger] cs@[j]),
            in_word ==> (start == 0 || is_space(cs@[start - 1])),
            !in_word ==> (i == 0 || is_space(cs@[i - 1])),
            out@.len() == done.len(),
            forall|j: int|
                0 <= j < out@.len() ==> (#[trigger] out@[j]).0 < out@[j].1 <= cs.len()
                    && cs@.subrange(out@[j].0 as int, out@[j].1 as int) == done[j],
        decreases cs.len() - i,
    {
        let c = cs[i];
        let ghost pre = cs@.take(i as int);
        assert(cs@.take(i + 1).drop_last() =~= pre);
        if space_char(c) {
            if in_word {
                proof {
                    let wd = cs@.subrange(start as int, i as int);
                    done = done.push(wd);
                }
                out.push((start, i));
            }
            in_word = false;
        } else {
            if in_word {
                assert(cs@.take(i + 1)[i - 1] == cs@[i - 1]);
                assert(cs@.subrange(start as int, i + 1) =~= cs@.subrange(start as int, i as int).push(c));
            } else {
                assert(cs@.subrange(i as int, i + 1) =~= seq![c]);
                if i > 0 {
                    assert(cs@.take(i + 1)[i - 1] == cs@[i - 1]);
                }
                start = i;
            }
            in_word = true;
        }
        i = i + 1;
    }
    assert(cs@.take(cs.len() as int) =~= cs@);
    if in_word {
        proof {
            done = done.push(cs@.subrange(start as int, cs.len() as int));
        }
        out.push((start, cs.len()));
    }
    out
}

fn line_fits(n: u128, font_size: i64, max_width: Option<i64>) -> (r: bool)
    requires
        n <= 3 * (usize::MAX as int),
    ensures
        r == fits(n as int, font_size as int, max_width),
{
    match max_width {
        Some(m) => {
            let f = if font_size < -MAX_EXTENT {
                -MAX_EXTENT
            } else if font_size > MAX_EXTENT {
                MAX_EXTENT
            } else {
                font_size
            };
            assert(-0x1_0000_0000_0000_0000_0000_0000_0000 <= n * f * 55 <= 0x1_0000_0000_0000_0000_0000_0000_0000)
                by (nonlinear_arith)
                requires
                    0 <= n <= 3 * (usize::MAX as int),
                    -1_000_000_000_000 <= f <= 1_000_000_000_000,
            ;
            (n as i128) * (f as i128) * 55 <= (m as i128) * 100
        },
        None => true,
    }
}

pub open spec fn string_views(v: Seq<String>) -> Seq<Seq<char>> {
    v.map_values(|s: String| s@)
}

/// Splits a text into lines that fit `max_width` (no limit when `None`),
/// estimating each character at 0.55 of the font size.
pub fn word_wrap(text: &str, font_size: i64, max_width: Option<i64>) -> (r: Vec<String>)
    ensures
        string_views(r@) == wrapped_lines(text@, font_size as int, max_width),
{
    let cs = to_chars(text);
    let ws = word_ranges(&cs);
    let ghost wds = words(text@);
    let mut lines: Vec<String> = Vec::new();
    let mut current = String::new();
    let mut i: usize = 0;
    while i < ws.len()
        invariant
            i <= ws.len(),
            cs@ == text@,
            wds == words(text@),
            ws@.len() == wds.len(),
            forall|j: int|
                0 <= j < ws@.len() ==> (#[trigger] ws@[j]).0 < ws@[j].1 <= cs.len() && cs@.subrange(
                    ws@[j].0 as int,
                    ws@[j].1 as int,
                ) == wds[j],
            (string_views(lines@), current@) == wrap_state(wds.take(i as int), font_size as int, max_width),
        decreases ws.len() - i,
    {
        let (a, b) = ws[i];
        let ghost w = wds[i as int];
        assert(wds.take(i + 1).drop_last() =~= wds.take(i as int));
        assert(wds.take(i + 1).last() == w);
        let n_cur = char_count(&current);
        if n_cur > 0 && !line_fits(n_cur as u128 + 1 + (b - a) as u128, font_size, max_width) {
            let ghost old_lines = string_views(lines@);
            lines.push(current);
            assert(string_views(lines@) =~= old_lines.push(current@));
            current = string_of(&cs, a, b);
        } else {
            if n_cur > 0 {
                push_char(&mut current, ' ');
            }
            let mut k = a;
            let ghost base = current@;
            while k < b
                invariant
                    a <= k <= b <= cs.len(),
                    current@ == base + cs@.subrange(a as int, k as int),
                decreases b - k,
            {
                push_char(&mut current, cs[k]);
                assert(cs@.subrange(a as int, k + 1) =~= cs@.subrange(a as int, k as int).push(cs@[k as int]));
                k = k + 1;
            }
        }
        i = i + 1;
    }
    assert(wds.take(ws.len() as int) =~= wds);
    if char_count(&current) > 0 {
        let ghost old_lines = string_views(lines@);
        lines.push(current);
        assert(string_views(lines@) =~= old_lines.push(current@));
    }
    if lines.len() == 0 {
        let e = String::new();
        lines.push(e);
        assert(string_views(lines@) =~= seq![Seq::<char>::empty()]);
    }
    lines
}

/// Number of characters of a text.
pub fn char_count(s: &String) -> (n: usize)
    ensures
        n == s@.len(),
{
    to_chars(s.as_str()).len()
}

/// A line holding no white space, that is a single word.
pub open spec fn one_word(l: Seq<char>) -> bool {
    l.len() > 0 && forall|i: int| 0 <= i < l.len() ==> !is_space(#[trigger] l[i])
}

proof fn lemma_words_are_words(s: Seq<char>)
    ensures
        forall|i: int| 0 <= i < words(s).len() ==> one_word(#[trigger] words(s)[i]),
    decreases s.len(),
{
    if s.len() > 0 {
        lemma_words_are_words(s.drop_last());
        let w = words(s.drop_last());
        if is_space(s.last()) {
        } else if s.len() >= 2 && !is_space(s[s.len() - 2]) {
            assert(w.len() > 0) by {
                lemma_words_last(s.drop_last());
            }
            let nw = w.update(w.len() - 1, w.last().push(s.last()));
            assert forall|i: int| 0 <= i < nw.len() implies one_word(#[trigger] nw[i]) by {
                if i == w.len() - 1 {
                    assert(one_word(w[i]));
                    let l = w.last().push(s.last());
                    assert forall|j: int| 0 <= j < l.len() implies !is_space(#[trigger] l[j]) by {
                        if j < l.len() - 1 {
                            assert(l[j] == w[i][j]);
                        }
                    }
                } else {
                    assert(nw[i] == w[i]);
                }
            }
        } else {
            let nw = w.push(seq![s.last()]);
            assert forall|i: int| 0 <= i < nw.len() implies one_word(#[trigger] nw[i]) by {
                if i < w.len() {
                    assert(nw[i] == w[i]);
                }
            }
        }
    }
}

proof fn lemma_words_last(s: Seq<char>)
    requires
        s.len() > 0,
        !is_space(s.last()),
    ensures
        words(s).len() > 0,
    decreases s.len(),
{
    if s.len() >= 2 && !is_space(s[s.len() - 2]) {
        lemma_words_last(s.drop_last());
    }
}

/// A line that fits, or a single word.
pub open spec fn acceptable(l: Seq<char>, font_size: int, max: Option<i64>) -> bool {
    fits(l.len() as int, font_size, max) || one_word(l)
}

proof fn lemma_wrap_state_acceptable(ws: Seq<Seq<char>>, font_size: int, max: Option<i64>)
    requires
        forall|i: int| 0 <= i < ws.len() ==> one_word(#[trigger] ws[i]),
    ensures
        forall|i: int|
            0 <= i < wrap_state(ws, font_size, max).0.len() ==> acceptable(
                #[trigger] wrap_state(ws, font_size, max).0[i],
                font_size,
                max,
            ),
        wrap_state(ws, font_size, max).1.len() > 0 ==> acceptable(
            wrap_state(ws, font_size, max).1,
            font_size,
            max,
        ),
        ws.len() > 0 ==> wrap_state(ws, font_size, max).1.len() > 0,
    decreases ws.len(),
{
    if ws.len() > 0 {
        lemma_wrap_state_acceptable(ws.drop_last(), font_size, max);
        assert(one_word(ws[ws.len() - 1]));
        let (lines, cur) = wrap_state(ws.drop_last(), font_size, max);
        let w = ws.last();
        if cur.len() > 0 && !fits((cur.len() + 1 + w.len()) as int, font_size, max) {
            let nl = lines.push(cur);
            assert forall|i: int| 0 <= i < nl.len() implies acceptable(#[trigger] nl[i], font_size, max) by {
                if i < lines.len() {
                    assert(nl[i] == lines[i]);
                }
            }
        } else if cur.len() > 0 {
            assert((cur + seq![' '] + w).len() == cur.len() + 1 + w.len());
        }
    }
}

/// Every line that fallback wrapping produces fits the maximum width by the
/// estimate, except a line made of one word that is too wide by itself. The
/// one input left out is a text without words under a negative maximum: its
/// single empty line is wider than that maximum.
pub proof fn lemma_wrap_fits(s: Seq<char>, font_size: int, max: Option<i64>)
    requires
        (max is Some && max->0 < 0) ==> words(s).len() > 0,
    ensures
        forall|i: int|
            0 <= i < wrapped_lines(s, font_size, max).len() ==> acceptable(
                #[trigger] wrapped_lines(s, font_size, max)[i],
                font_size,
                max,
            ),
{
    lemma_words_are_words(s);
    lemma_wrap_state_acceptable(words(s), font_size, max);
    let (lines, cur) = wrap_state(words(s), font_size, max);
    let all = if cur.len() > 0 {
        lines.push(cur)
    } else {
        lines
    };
    if all.len() == 0 {
        assert(fits(0, font_size, max));
        assert(acceptable(Seq::<char>::empty(), font_size, max));
    } else {
        assert forall|i: int| 0 <= i < all.len() implies acceptable(#[trigger] all[i], font_size, max) by {
            if i < lines.len() {
                assert(all[i] == lines[i]);
            }
        }
    }
}

/// The words of a run of lines, line after line.
pub open spec fn words_of_lines(lines: Seq<Seq<char>>) -> Seq<Seq<char>>
    decreases lines.len(),
{
    if lines.len() == 0 {
        Seq::empty()
    } else {
        words_of_lines(lines.drop_last()) + words(lines.last())
    }
}

/// A line of words joined by single spaces: it starts and ends with a word,
/// and its only white space is single `' '` characters between words.
pub open spec fn single_spaced(l: Seq<char>) -> bool {
    &&& l.len() > 0
    &&& !is_space(l[0])
    &&& !is_space(l.last())
    &&& forall|i: int|
        0 <= i < l.len() && is_space(#[trigger] l[i]) ==> l[i] == ' ' && i + 1 < l.len() && !is_space(
            l[i + 1],
        )
}

proof fn lemma_words_after_space(y: Seq<char>, w: Seq<char>, k: int)
    requires
        y.len() == 0 || is_space(y.last()),
        one_word(w),
        1 <= k <= w.len(),
    ensures
        words(y + w.take(k)) == words(y).push(w.take(k)),
    decreases k,
{
    let t = y + w.take(k);
    assert(t.drop_last() =~= y + w.take(k - 1));
    assert(t.last() == w[k - 1]);
    assert(!is_space(w[k - 1]));
    if k == 1 {
        assert(w.take(0) =~= Seq::<char>::empty());
        assert(y + w.take(0) =~= y);
        assert(w.take(1) =~= seq![w[0]]);
        if t.len() >= 2 {
            assert(t[t.len() - 2] == y.last());
        }
    } else {
        lemma_words_after_space(y, w, k - 1);
        assert(t[t.len() - 2] == w[k - 2]);
        assert(!is_space(w[k - 2]));
        let prev = words(y).push(w.take(k - 1));
        assert(w.take(k - 1).push(w[k - 1]) =~= w.take(k));
        assert(prev.last() == w.take(k - 1));
        assert(prev.update(prev.len() - 1, prev.last().push(t.last())) =~= words(y).push(w.take(k)));
    }
}

proof fn lemma_word_alone(w: Seq<char>)
    requires
        one_word(w),
    ensures
        words(w) == seq![w],
        single_spaced(w),
{
    lemma_words_after_space(Seq::empty(), w, w.len() as int);
    assert(Seq::<char>::empty() + w.take(w.len() as int) =~= w);
    assert(words(Seq::<char>::empty()) == Seq::<Seq<char>>::empty());
    assert(Seq::<Seq<char>>::empty().push(w) =~= seq![w]);
    assert(w.take(w.len() as int) =~= w);
}

proof fn lemma_join_word(c: Seq<char>, w: Seq<char>)
    requires
        single_spaced(c),
        one_word(w),
    ensures
        words(c + seq![' '] + w) == words(c).push(w),
        single_spaced(c + seq![' '] + w),
{
    let y = c + seq![' '];
    assert(y.drop_last() =~= c);
    assert(is_space(' '));
    assert(words(y) == words(c));
    lemma_words_after_space(y, w, w.len() as int);
    assert(w.take(w.len() as int) =~= w);
    let l = c + seq![' '] + w;
    assert(l[0] == c[0]);
    assert(l.last() == w.last());
    assert(!is_space(w[w.len() - 1]));
    assert forall|i: int|
        0 <= i < l.len() && is_space(#[trigger] l[i]) implies l[i] == ' ' && i + 1 < l.len() && !is_space(
            l[i + 1],
        ) by {
        if i < c.len() {
            assert(l[i] == c[i]);
            if i + 1 < c.len() {
                assert(l[i + 1] == c[i + 1]);
            } else {
                assert(c[i] == c.last());
            }
        } else if i == c.len() {
            assert(l[i + 1] == w[0]);
            assert(!is_space(w[0]));
        } else {
            assert(l[i] == w[i - c.len() - 1]);
            assert(!is_space(w[i - c.len() - 1]));
        }
    }
}

proof fn lemma_wrap_state_words(ws: Seq<Seq<char>>, font_size: int, max: Option<i64>)
    requires
        forall|i: int| 0 <= i < ws.len() ==> one_word(#[trigger] ws[i]),
    ensures
        words_of_lines(wrap_state(ws, font_size, max).0) + words(wrap_state(ws, font_size, max).1) == ws,
        forall|i: int|
            0 <= i < wrap_state(ws, font_size, max).0.len() ==> single_spaced(
                #[trigger] wrap_state(ws, font_size, max).0[i],
            ),
        wrap_state(ws, font_size, max).1.len() > 0 ==> single_spaced(wrap_state(ws, font_size, max).1),
        ws.len() == 0 ==> wrap_state(ws, font_size, max).1.len() == 0,
    decreases ws.len(),
{
    if ws.len() == 0 {
        assert(words(Seq::<char>::empty()) == Seq::<Seq<char>>::empty());
        assert(Seq::<Seq<char>>::empty() + Seq::<Seq<char>>::empty() =~= ws);
    } else {
        let prev = ws.drop_last();
        lemma_wrap_state_words(prev, font_size, max);
        let (lines, cur) = wrap_state(prev, font_size, max);
        let w = ws.last();
        assert(one_word(ws[ws.len() - 1]));
        lemma_word_alone(w);
        assert(ws =~= prev.push(w));
        if cur.len() > 0 && !fits((cur.len() + 1 + w.len()) as int, font_size, max) {
            let nl = lines.push(cur);
            assert(nl.drop_last() =~= lines);
            assert(words_of_lines(nl) == words_of_lines(lines) + words(cur));
            assert(words_of_lines(nl) + words(w) =~= prev.push(w));
            assert forall|i: int| 0 <= i < nl.len() implies single_spaced(#[trigger] nl[i]) by {
                if i < lines.len() {
                    assert(nl[i] == lines[i]);
                }
            }
        } else if cur.len() > 0 {
            lemma_join_word(cur, w);
            assert(words_of_lines(lines) + words(cur).push(w) =~= (words_of_lines(lines) + words(cur)).push(w));
        } else {
            assert(words(cur) == Seq::<Seq<char>>::empty()) by {
                assert(cur =~= Seq::<char>::empty());
            }
            assert(words_of_lines(lines) + Seq::<Seq<char>>::empty() =~= words_of_lines(lines));
            assert(words_of_lines(lines) + seq![w] =~= prev.push(w));
        }
    }
}

/// Wrapping keeps every word whole, once and in order: the words of the
/// lines, line after line, are the words of the text, and each line is
/// words joined by single spaces. A text without words gives one empty line.
pub proof fn lemma_wrap_keeps_words(s: Seq<char>, font_size: int, max: Option<i64>)
    ensures
        words(s).len() > 0 ==> words_of_lines(wrapped_lines(s, font_size, max)) == words(s),
        words(s).len() > 0 ==> forall|i: int|
            0 <= i < wrapped_lines(s, font_size, max).len() ==> single_spaced(
                #[trigger] wrapped_lines(s, font_size, max)[i],
            ),
        words(s).len() == 0 ==> wrapped_lines(s, font_size, max) == seq![Seq::<char>::empty()],
{
    lemma_words_are_words(s);
    lemma_wrap_state_words(words(s), font_size, max);
    lemma_wrap_state_acceptable(words(s), font_size, max);
    let (lines, cur) = wrap_state(words(s), font_size, max);
    if words(s).len() > 0 {
        let all = lines.push(cur);
        assert(all.drop_last() =~= lines);
        assert(words_of_lines(all) == words_of_lines(lines) + words(cur));
        assert forall|i: int| 0 <= i < all.len() implies single_spaced(#[trigger] all[i]) by {
            if i < lines.len() {
                assert(all[i] == lines[i]);
            }
        }
    } else {
        assert(words(cur) == Seq::<Seq<char>>::empty()) by {
            assert(cur =~= Seq::<char>::empty());
        }
        assert(words_of_lines(lines) =~= Seq::<Seq<char>>::empty());
        if lines.len() > 0 {
            assert(single_spaced(lines[lines.len() - 1]));
            lemma_word_alone_nonempty(lines);
        }
    }
}

proof fn lemma_word_alone_nonempty(lines: Seq<Seq<char>>)
    requires
        lines.len() > 0,
        forall|i: int| 0 <= i < lines.len() ==> single_spaced(#[trigger] lines[i]),
    ensures
        words_of_lines(lines).len() > 0,
{
    let l = lines.last();
    assert(single_spaced(lines[lines.len() - 1]));
    lemma_words_last(l);
    assert(words_of_lines(lines) == words_of_lines(lines.drop_last()) + words(l));
}

/// Height of one line: the font size times the line height (in thousandths).
pub open spec fn row_height(font_size: int, line_height: int) -> int {
    ext(div_toward_zero(ext(font_size) * ext(line_height), 1000))
}

/// The widest estimate among lines, and zero when there are none.
pub open spec fn widest(lines: Seq<Seq<char>>, font_size: int) -> int
    decreases lines.len(),
{
    if lines.len() == 0 {
        0
    } else {
        let w = widest(lines.drop_last(), font_size);
        let l = estimate_width(lines.last().len() as int, font_size);
        if l > w {
            l
        } else {
            w
        }
    }
}

/// `w` limited to `max` when there is one.
pub open spec fn capped(w: int, max: Option<i64>) -> int {
    match max {
        Some(m) => if w < m {
            w
        } else {
            m as int
        },
        None => w,
    }
}

fn ext_i128(v: i128) -> (r: i64)
    ensures
        r == ext(v as int),
{
    if v < -(MAX_EXTENT as i128) {
        -MAX_EXTENT
    } else if v > MAX_EXTENT as i128 {
        MAX_EXTENT
    } else {
        v as i64
    }
}

fn toward_zero(a: i128, b: i128) -> (r: i128)
    requires
        b > 0,
        a > i128::MIN,
    ensures
        r == div_toward_zero(a as int, b as int),
{
    if a >= 0 {
        a / b
    } else {
        0 - ((0 - a) / b)
    }
}

fn font_ext(f: i64) -> (r: i128)
    ensures
        r == ext(f as int),
        -1_000_000_000_000 <= r <= 1_000_000_000_000,
{
    ext_i128(f as i128) as i128
}

/// Height of one line of text.
pub fn line_box(font_size: i64, line_height: i64) -> (r: i64)
    ensures
        r == row_height(font_size as int, line_height as int),
{
    let f = font_ext(font_size);
    let l = font_ext(line_height);
    assert(-1_000_000_000_000_000_000_000_000 <= f * l <= 1_000_000_000_000_000_000_000_000) by (nonlinear_arith)
        requires
            -1_000_000_000_000 <= f <= 1_000_000_000_000,
            -1_000_000_000_000 <= l <= 1_000_000_000_000,
    ;
    ext_i128(toward_zero(f * l, 1000))
}

/// Estimated width of `n` characters.
fn width_of(n: usize, font_size: i64) -> (r: i128)
    ensures
        r == estimate_width(n as int, font_size as int),
{
    let f = font_ext(font_size);
    assert(-0x1_0000_0000_0000_0000_0000_0000_0000 <= n * f * 55 <= 0x1_0000_0000_0000_0000_0000_0000_0000)
        by (nonlinear_arith)
        requires
            0 <= n <= usize::MAX,
            -1_000_000_000_000 <= f <= 1_000_000_000_000,
    ;
    toward_zero((n as i128) * f * 55, 100)
}

fn widest_of(lines: &Vec<String>, font_size: i64) -> (r: i128)
    ensures
        r == widest(string_views(lines@), font_size as int),
{
    let mut w: i128 = 0;
    let mut i: usize = 0;
    while i < lines.len()
        invariant
            i <= lines.len(),
            w == widest(string_views(lines@).take(i as int), font_size as int),
        decreases lines.len() - i,
    {
        let l = width_of(char_count(&lines[i]), font_size);
        assert(string_views(lines@).take(i + 1).drop_last() =~= string_views(lines@).take(i as int));
        assert(string_views(lines@).take(i + 1).last() == lines@[i as int]@);
        if l > w {
            w = l;
        }
        i = i + 1;
    }
    assert(string_views(lines@).take(lines.len() as int) =~= string_views(lines@));
    w
}

/// Size of a text estimated without a font: the widest wrapped line
/// (limited to `max_width`) by one row per line.
pub open spec fn fallback_measure_spec(text: Seq<char>, font_size: i64, line_height: i64, max_width: Option<i64>) -> (i64, i64) {
    (
        ext(capped(widest(wrapped_lines(text, font_size as int, max_width), font_size as int), max_width)) as i64,
        ext(row_height(font_size as int, line_height as int) * wrapped_lines(text, font_size as int, max_width).len()) as i64,
    )
}

/// Size of a text estimated without a font: the widest wrapped line
/// (limited to `max_width`) by one row per line.
pub fn fallback_measure(text: &str, font_size: i64, line_height: i64, max_width: Option<i64>) -> (r: (i64, i64))
    ensures
        r == fallback_measure_spec(text@, font_size, line_height, max_width),
{
    let wrapped = word_wrap(text, font_size, max_width);
    let row = line_box(font_size, line_height);
    let widest_line = widest_of(&wrapped, font_size);
    let width = match max_width {
        Some(m) => if widest_line < m as i128 {
            widest_line
        } else {
            m as i128
        },
        None => widest_line,
    };
    let n = wrapped.len();
    assert(string_views(wrapped@).len() == n);
    assert(-0x1_0000_0000_0000_0000_0000_0000_0000 <= row * n <= 0x1_0000_0000_0000_0000_0000_0000_0000)
        by (nonlinear_arith)
        requires
            0 <= n <= usize::MAX,
            -1_000_000_000_000 <= row <= 1_000_000_000_000,
    ;
    (ext_i128(width), ext_i128(row as i128 * n as i128))
}

/// Ascent of the estimated layout: 0.8 of the font size.
pub open spec fn fallback_ascent(font_size: int) -> int {
    ext(div_toward_zero(ext(font_size) * 8, 10))
}

/// Descent of the estimated layout: 0.2 of the font size.
pub open spec fn fallback_descent(font_size: int) -> int {
    ext(div_toward_zero(ext(font_size) * 2, 10))
}

/// Layout of a text estimated without a font: the wrapped lines, line `i`
/// with its baseline at `i` rows plus the ascent.
pub open spec fn is_fallback_layout(r: TextLayoutResult, text: Seq<char>, font_size: i64, line_height: i64, max_width: i64) -> bool {
    &&& r.lines@.len() == wrapped_lines(text, font_size as int, Some(max_width)).len()
    &&& forall|i: int| 0 <= i < r.lines@.len() ==> {
        &&& (#[trigger] r.lines@[i]).text@ == wrapped_lines(text, font_size as int, Some(max_width))[i]
        &&& r.lines@[i].baseline == ext(row_height(font_size as int, line_height as int) * i
            + fallback_ascent(font_size as int))
        &&& r.lines@[i].ascent == fallback_ascent(font_size as int)
        &&& r.lines@[i].descent == fallback_descent(font_size as int)
        &&& r.lines@[i].glyphs@.len() == 0
    }
    &&& (r.width, r.height) == fallback_measure_spec(text, font_size, line_height, Some(max_width))
}

/// Layout of a text estimated without a font.
pub fn fallback_layout(text: &str, font_size: i64, line_height: i64, max_width: i64) -> (r: TextLayoutResult)
    ensures
        is_fallback_layout(r, text@, font_size, line_height, max_width),
{
    let wrapped = word_wrap(text, font_size, Some(max_width));
    let ghost wl = wrapped_lines(text@, font_size as int, Some(max_width));
    let row = line_box(font_size, line_height);
    let f = font_ext(font_size);
    let ascent = ext_i128(toward_zero(f * 8, 10));
    let descent = ext_i128(toward_zero(f * 2, 10));
    let mut lines: Vec<TextLine> = Vec::new();
    let mut i: usize = 0;
    while i < wrapped.len()
        invariant
            i <= wrapped.len(),
            string_views(wrapped@) == wl,
            row == row_height(font_size as int, line_height as int),
            ascent == fallback_ascent(font_size as int),
            descent == fallback_descent(font_size as int),
            lines@.len() == i,
            forall|k: int| 0 <= k < i ==> {
                &&& (#[trigger] lines@[k]).text@ == wl[k]
                &&& lines@[k].baseline == ext(row * k + ascent)
                &&& lines@[k].ascent == ascent
                &&& lines@[k].descent == descent
                &&& lines@[k].glyphs@.len() == 0
            },
        decreases wrapped.len() - i,
    {
        assert(-0x1_0000_0000_0000_0000_0000_0000_0000 <= row * i + ascent <= 0x1_0000_0000_0000_0000_0000_0000_0000)
            by (nonlinear_arith)
            requires
                0 <= i <= usize::MAX,
                -1_000_000_000_000 <= row <= 1_000_000_000_000,
                -1_000_000_000_000 <= ascent <= 1_000_000_000_000,
        ;
        let baseline = ext_i128(row as i128 * i as i128 + ascent as i128);
        assert(wl[i as int] == wrapped@[i as int]@);
        let line = TextLine { text: wrapped[i].clone(), baseline, ascent, descent, glyphs: Vec::new() };
        lines.push(line);
        i = i + 1;
    }
    let (width, height) = fallback_measure(text, font_size, line_height, Some(max_width));
    TextLayoutResult { width, height, lines }
}

/// Some line holds text.
pub open spec fn has_text(lines: Seq<TextLine>) -> bool {
    exists|i: int| 0 <= i < lines.len() && (#[trigger] lines[i]).text@.len() > 0
}

fn any_text(lines: &Vec<TextLine>) -> (r: bool)
    ensures
        r == has_text(lines@),
{
    let mut i: usize = 0;
    while i < lines.len()
        invariant
            i <= lines.len(),
            forall|k: int| 0 <= k < i ==> (#[trigger] lines@[k]).text@.len() == 0,
        decreases lines.len() - i,
    {
        if char_count(&lines[i].text) > 0 {
            return true;
        }
        i = i + 1;
    }
    false
}

/// The layout of an empty text: no lines, one row high.
pub fn empty_text_layout(font_size: i64, line_height: i64) -> (r: TextLayoutResult)
    ensures
        r.width == 0,
        r.height == row_height(font_size as int, line_height as int),
        r.lines@.len() == 0,
{
    TextLayoutResult { width: 0, height: line_box(font_size, line_height), lines: Vec::new() }
}

/// The layout of a shaped text: no lines and one row high for an empty
/// text; the shaping result when some line holds text; and otherwise (no
/// font could shape it) the estimate.
pub fn settle_text_layout(
    text: &str,
    font_size: i64,
    line_height: i64,
    max_width: i64,
    shaped: TextLayoutResult,
) -> (r: TextLayoutResult)
    ensures
        text@.len() == 0 ==> r.width == 0 && r.height == row_height(font_size as int, line_height as int)
            && r.lines@.len() == 0,
        text@.len() > 0 && has_text(shaped.lines@) ==> r == shaped,
        text@.len() > 0 && !has_text(shaped.lines@) ==> is_fallback_layout(r, text@, font_size, line_height, max_width),
{
    if to_chars(text).len() == 0 {
        empty_text_layout(font_size, line_height)
    } else if any_text(&shaped.lines) {
        shaped
    } else {
        fallback_layout(text, font_size, line_height, max_width)
    }
}

} // verus!
