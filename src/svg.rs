//! Serialises a command stream to SVG text.
use vstd::prelude::*;
use crate::color::{Color, css_text};
use crate::num::{fixed_text, push_fixed};
use crate::render::{Rect, RenderCommand, RenderTree, TextLineRender, radii_wf};
use crate::strings::{decimal, escaped, push_decimal, push_escaped, push_str};

verus! {

broadcast use crate::strings::lemma_concat_assoc;

/// Options of the SVG output.
#[derive(Debug, Clone, Copy, PartialEq, Eq, Structural)]
pub struct SvgOptions {
    /// Start with an XML declaration.
    pub xml_declaration: bool,
    /// Indent the output (accepted; the output is never indented).
    pub pretty: bool,
    /// Decimals printed for coordinates and sizes.
    pub precision: usize,
}

impl Default for SvgOptions {
    fn default() -> (r: SvgOptions)
        ensures
            r == (SvgOptions { xml_declaration: true, pretty: false, precision: 2 }),
    {
        SvgOptions { xml_declaration: true, pretty: false, precision: 2 }
    }
}

pub open spec fn num(v: int, p: nat) -> Seq<char> {
    fixed_text(v, p)
}

/// `x`, `y`, `width` and `height` attributes of a rectangle.
pub open spec fn rect_attrs(r: Rect, p: nat) -> Seq<char> {
    "x=\""@ + num(r.x as int, p) + "\" y=\""@ + num(r.y as int, p) + "\" width=\""@ + num(
        r.width as int,
        p,
    ) + "\" height=\""@ + num(r.height as int, p) + "\""@
}

/// Some corner is rounded.
pub open spec fn has_radius(r: [i64; 4]) -> bool {
    r[0] > 0 || r[1] > 0 || r[2] > 0 || r[3] > 0
}

/// All four corners have the same radius.
pub open spec fn all_same_spec(r: [i64; 4]) -> bool {
    r[1] == r[0] && r[2] == r[0] && r[3] == r[0]
}

/// The form in which a rectangle with these corner radii is written.
#[derive(Debug, Clone, Copy, PartialEq, Eq, Structural)]
pub enum RectShape {
    /// A plain `<rect>`.
    Plain,
    /// A `<rect>` with one `rx` radius.
    Rounded,
    /// A `<path>` with a curve at each corner.
    Path,
}

pub open spec fn rect_shape(r: [i64; 4]) -> RectShape {
    if !has_radius(r) {
        RectShape::Plain
    } else if all_same_spec(r) {
        RectShape::Rounded
    } else {
        RectShape::Path
    }
}

/// `v / 2` rounded toward zero.
pub open spec fn half(v: int) -> int {
    if v >= 0 {
        v / 2
    } else {
        -((-v) / 2)
    }
}

/// A corner radius limited to half the smaller side.
pub open spec fn clamp_radius(r: int, w: int, h: int) -> int {
    let m = if half(w) <= half(h) {
        half(w)
    } else {
        half(h)
    };
    if r <= m {
        r
    } else {
        m
    }
}

pub open spec fn point(x: int, y: int, p: nat) -> Seq<char> {
    num(x, p) + ","@ + num(y, p)
}

/// Path of a rectangle whose corners are quadratic curves with the
/// rectangle's own corner as control point.
pub open spec fn rounded_path(rect: Rect, radii: [i64; 4], p: nat) -> Seq<char> {
    let (x, y, w, h) = (rect.x as int, rect.y as int, rect.width as int, rect.height as int);
    let tl = clamp_radius(radii[0] as int, w, h);
    let tr = clamp_radius(radii[1] as int, w, h);
    let br = clamp_radius(radii[2] as int, w, h);
    let bl = clamp_radius(radii[3] as int, w, h);
    path_top(x, y, w, tl, tr, p) + path_bottom(x, y, w, h, tl, br, bl, p)
}

pub open spec fn path_top(x: int, y: int, w: int, tl: int, tr: int, p: nat) -> Seq<char> {
    "M "@ + point(x + tl, y, p) + " L "@ + point(x + w - tr, y, p) + " Q "@ + point(x + w, y, p)
        + " "@ + point(x + w, y + tr, p)
}

pub open spec fn path_bottom(
    x: int,
    y: int,
    w: int,
    h: int,
    tl: int,
    br: int,
    bl: int,
    p: nat,
) -> Seq<char> {
    " L "@ + point(x + w, y + h - br, p) + " Q "@ + point(x + w, y + h, p) + " "@ + point(
        x + w - br,
        y + h,
        p,
    ) + " L "@ + point(x + bl, y + h, p) + " Q "@ + point(x, y + h, p) + " "@ + point(
        x,
        y + h - bl,
        p,
    ) + " L "@ + point(x, y + tl, p) + " Q "@ + point(x, y, p) + " "@ + point(x + tl, y, p)
        + " Z"@
}

/// Text of a filled rectangle.
pub open spec fn fill_rect_text(rect: Rect, color: Color, radii: [i64; 4], p: nat) -> Seq<
    char,
> {
    if color.a == 0 {
        Seq::empty()
    } else {
        match rect_shape(radii) {
            RectShape::Path => "<path d=\""@ + rounded_path(rect, radii, p) + "\" fill=\""@
                + css_text(color) + "\"/>"@,
            RectShape::Rounded => "<rect "@ + rect_attrs(rect, p) + " rx=\""@ + num(
                radii[0] as int,
                p,
            ) + "\" fill=\""@ + css_text(color) + "\"/>"@,
            RectShape::Plain => "<rect "@ + rect_attrs(rect, p) + " fill=\""@ + css_text(color)
                + "\"/>"@,
        }
    }
}

/// The rectangle on which a stroke of width `w` is centred.
pub open spec fn stroke_inner(rect: Rect, w: int) -> Rect {
    Rect {
        x: (rect.x + half(w)) as i64,
        y: (rect.y + half(w)) as i64,
        width: (rect.width - w) as i64,
        height: (rect.height - w) as i64,
    }
}

/// Text of a stroked rectangle.
pub open spec fn stroke_rect_text(rect: Rect, color: Color, w: int, radii: [i64; 4], p: nat) -> Seq<
    char,
> {
    if color.a == 0 || w <= 0 {
        Seq::empty()
    } else {
        stroke_shape(stroke_inner(rect, w), radii, p) + " fill=\"none\" stroke=\""@ + css_text(
            color,
        ) + "\" stroke-width=\""@ + num(w, p) + "\"/>"@
    }
}

/// The element and geometry of a stroked rectangle, up to its paint attributes.
pub open spec fn stroke_shape(inner: Rect, radii: [i64; 4], p: nat) -> Seq<char> {
    match rect_shape(radii) {
        RectShape::Path => "<path d=\""@ + rounded_path(inner, radii, p) + "\""@,
        RectShape::Rounded => "<rect "@ + rect_attrs(inner, p) + " rx=\""@ + num(
            radii[0] as int,
            p,
        ) + "\""@,
        RectShape::Plain => "<rect "@ + rect_attrs(inner, p),
    }
}

/// The `<tspan>` elements of the lines of a text.
pub open spec fn tspans(lines: Seq<TextLineRender>, p: nat) -> Seq<char>
    decreases lines.len(),
{
    if lines.len() == 0 {
        Seq::empty()
    } else {
        let l = lines.last();
        tspans(lines.drop_last(), p) + "<tspan x=\""@ + num(l.x as int, p) + "\" y=\""@ + num(
            l.y as int,
            p,
        ) + "\">"@ + escaped(l.text@) + "</tspan>"@
    }
}

pub open spec fn font_attrs(
    color: Color,
    family: Seq<char>,
    size: int,
    weight: u16,
    p: nat,
) -> Seq<char> {
    "fill=\""@ + css_text(color) + "\" font-family=\""@ + escaped(family) + "\" font-size=\""@
        + num(size, p) + "\" font-weight=\""@ + decimal(weight as nat) + "\""@
}

/// Text of a text run: nothing without lines; one positioned `<text>` for
/// one line; otherwise a `<text>` with one `<tspan>` per line.
pub open spec fn text_run_text(
    family: Seq<char>,
    size: int,
    weight: u16,
    color: Color,
    lines: Seq<TextLineRender>,
    p: nat,
) -> Seq<char> {
    if lines.len() == 0 {
        Seq::empty()
    } else if lines.len() == 1 {
        "<text x=\""@ + num(lines[0].x as int, p) + "\" y=\""@ + num(lines[0].y as int, p)
            + "\" "@ + font_attrs(color, family, size, weight, p) + ">"@ + escaped(lines[0].text@)
            + "</text>"@
    } else {
        "<text "@ + font_attrs(color, family, size, weight, p) + ">"@ + tspans(lines, p)
            + "</text>"@
    }
}

/// The clip shape of a rectangle with rounded corners.
pub open spec fn rounded_clip_shape(rect: Rect, radii: [i64; 4], p: nat) -> Seq<char> {
    if all_same_spec(radii) {
        "<rect "@ + rect_attrs(rect, p) + " rx=\""@ + num(radii[0] as int, p) + "\"/>"@
    } else {
        "<path d=\""@ + rounded_path(rect, radii, p) + "\"/>"@
    }
}

/// Text of an image; rounded corners clip it with a definition numbered `id`.
pub open spec fn image_text(rect: Rect, src: Seq<char>, radii: [i64; 4], id: nat, p: nat) -> Seq<
    char,
> {
    if has_radius(radii) {
        "<defs><clipPath id=\"img-clip-"@ + decimal(id) + "\">"@ + rounded_clip_shape(
            rect,
            radii,
            p,
        ) + "</clipPath></defs><image "@ + rect_attrs(rect, p) + " xlink:href=\""@ + escaped(src)
            + "\" clip-path=\"url(#img-clip-"@ + decimal(id) + ")\"/>"@
    } else {
        "<image "@ + rect_attrs(rect, p) + " xlink:href=\""@ + escaped(src) + "\"/>"@
    }
}

/// Text that opens a clip group numbered `id`.
pub open spec fn push_clip_text(rect: Rect, radii: [i64; 4], id: nat, p: nat) -> Seq<char> {
    "<defs><clipPath id=\"clip-"@ + decimal(id) + "\">"@ + (if has_radius(radii) {
        rounded_clip_shape(rect, radii, p)
    } else {
        "<rect "@ + rect_attrs(rect, p) + "/>"@
    }) + "</clipPath></defs><g clip-path=\"url(#clip-"@ + decimal(id) + ")\">"@
}

/// Clip definitions that a command allocates.
pub open spec fn clips_used(cmd: RenderCommand) -> nat {
    match cmd {
        RenderCommand::PushClip { .. } => 1,
        RenderCommand::Image { border_radius, .. } => if has_radius(border_radius) {
            1
        } else {
            0
        },
        _ => 0,
    }
}

/// Text of one command, whose first clip definition (if any) is numbered `id`.
#[verifier::opaque]
pub open spec fn command_text(cmd: RenderCommand, id: nat, p: nat) -> Seq<char> {
    match cmd {
        RenderCommand::FillRect { rect, color, border_radius } => fill_rect_text(
            rect,
            color,
            border_radius,
            p,
        ),
        RenderCommand::StrokeRect { rect, color, width, border_radius } => stroke_rect_text(
            rect,
            color,
            width as int,
            border_radius,
            p,
        ),
        RenderCommand::Text { font_family, font_size, font_weight, color, lines, .. } =>
            text_run_text(font_family@, font_size as int, font_weight, color, lines@, p),
        RenderCommand::TextPath { path_data, color } => "<path d=\""@ + path_data@ + "\" fill=\""@
            + css_text(color) + "\"/>"@,
        RenderCommand::Image { rect, src, border_radius } => image_text(
            rect,
            src@,
            border_radius,
            id,
            p,
        ),
        RenderCommand::PushClip { rect, border_radius } => push_clip_text(
            rect,
            border_radius,
            id,
            p,
        ),
        RenderCommand::PopClip => "</g>"@,
        RenderCommand::PushOpacity { opacity } => "<g opacity=\""@ + fixed_text(opacity as int, 2)
            + "\">"@,
        RenderCommand::PopOpacity => "</g>"@,
    }
}

/// Clip definitions allocated by a run of commands.
pub open spec fn clips_in(cmds: Seq<RenderCommand>) -> nat
    decreases cmds.len(),
{
    if cmds.len() == 0 {
        0
    } else {
        clips_in(cmds.drop_last()) + clips_used(cmds.last())
    }
}

/// Text of a run of commands whose clip definitions are numbered from `id`.
pub open spec fn commands_text(cmds: Seq<RenderCommand>, id: nat, p: nat) -> Seq<char>
    decreases cmds.len(),
{
    if cmds.len() == 0 {
        Seq::empty()
    } else {
        commands_text(cmds.drop_last(), id, p) + command_text(
            cmds.last(),
            id + clips_in(cmds.drop_last()),
            p,
        )
    }
}

/// The opening of the document, up to and including the `<svg>` tag.
pub open spec fn svg_header(width: int, height: int, o: SvgOptions) -> Seq<char> {
    let p = o.precision as nat;
    (if o.xml_declaration {
        "<?xml version=\"1.0\" encoding=\"UTF-8\"?>\n"@
    } else {
        Seq::empty()
    }) + "<svg xmlns=\"http://www.w3.org/2000/svg\" xmlns:xlink=\"http://www.w3.org/1999/xlink\" width=\""@
        + num(width, p) + "\" height=\""@ + num(height, p) + "\" viewBox=\"0 0 "@ + num(width, p)
        + " "@ + num(height, p) + "\">"@
}

/// The whole document for a command stream.
pub open spec fn svg_document(tree: RenderTree, o: SvgOptions) -> Seq<char> {
    svg_header(tree.width as int, tree.height as int, o) + commands_text(
        tree.commands@,
        0,
        o.precision as nat,
    ) + "</svg>"@
}

/// Bound on the values from which a path is computed.
pub open spec fn loose(v: int) -> bool {
    -4 * crate::render::MAX_EXTENT <= v <= 4 * crate::render::MAX_EXTENT
}

pub open spec fn path_fits(rect: Rect, radii: [i64; 4]) -> bool {
    loose(rect.x as int) && loose(rect.y as int) && loose(rect.width as int) && loose(
        rect.height as int,
    ) && loose(radii[0] as int) && loose(radii[1] as int) && loose(radii[2] as int) && loose(
        radii[3] as int,
    )
}

fn push_point(out: &mut String, x: i64, y: i64, p: usize)
    ensures
        final(out)@ == old(out)@ + point(x as int, y as int, p as nat),
{
    let ghost start = out@;
    push_fixed(out, x, p);
    push_str(out, ",");
    push_fixed(out, y, p);
    assert(out@ == start + point(x as int, y as int, p as nat));
}

fn push_rect_attrs(out: &mut String, r: &Rect, p: usize)
    ensures
        final(out)@ == old(out)@ + rect_attrs(*r, p as nat),
{
    let ghost start = out@;
    push_str(out, "x=\"");
    push_fixed(out, r.x, p);
    push_str(out, "\" y=\"");
    push_fixed(out, r.y, p);
    push_str(out, "\" width=\"");
    push_fixed(out, r.width, p);
    push_str(out, "\" height=\"");
    push_fixed(out, r.height, p);
    push_str(out, "\"");
    assert(out@ == start + rect_attrs(*r, p as nat));
}

/// Whether all four values are the same.
pub fn all_same(arr: &[i64; 4]) -> (r: bool)
    ensures
        r == all_same_spec(*arr),
{
    arr[1] == arr[0] && arr[2] == arr[0] && arr[3] == arr[0]
}

fn any_radius(arr: &[i64; 4]) -> (r: bool)
    ensures
        r == has_radius(*arr),
{
    arr[0] > 0 || arr[1] > 0 || arr[2] > 0 || arr[3] > 0
}

fn half_of(v: i64) -> (r: i64)
    requires
        loose(v as int),
    ensures
        r == half(v as int),
{
    if v >= 0 {
        v / 2
    } else {
        0 - ((0 - v) / 2)
    }
}

fn clamp_to(r: i64, w: i64, h: i64) -> (c: i64)
    requires
        loose(r as int),
        loose(w as int),
        loose(h as int),
    ensures
        c == clamp_radius(r as int, w as int, h as int),
        loose(c as int),
{
    let hw = half_of(w);
    let hh = half_of(h);
    let m = if hw <= hh {
        hw
    } else {
        hh
    };
    if r <= m {
        r
    } else {
        m
    }
}

fn push_path_top(out: &mut String, x: i64, y: i64, w: i64, tl: i64, tr: i64, p: usize)
    requires
        loose(x as int),
        loose(y as int),
        loose(w as int),
        loose(tl as int),
        loose(tr as int),
    ensures
        final(out)@ == old(out)@ + path_top(
            x as int,
            y as int,
            w as int,
            tl as int,
            tr as int,
            p as nat,
        ),
{
    let ghost start = out@;
    push_str(out, "M ");
    push_point(out, x + tl, y, p);
    push_str(out, " L ");
    push_point(out, x + w - tr, y, p);
    push_str(out, " Q ");
    push_point(out, x + w, y, p);
    push_str(out, " ");
    push_point(out, x + w, y + tr, p);
    assert(out@ == start + path_top(x as int, y as int, w as int, tl as int, tr as int, p as nat));
}

fn push_path_bottom(
    out: &mut String,
    x: i64,
    y: i64,
    w: i64,
    h: i64,
    tl: i64,
    br: i64,
    bl: i64,
    p: usize,
)
    requires
        loose(x as int),
        loose(y as int),
        loose(w as int),
        loose(h as int),
        loose(tl as int),
        loose(br as int),
        loose(bl as int),
    ensures
        final(out)@ == old(out)@ + path_bottom(
            x as int,
            y as int,
            w as int,
            h as int,
            tl as int,
            br as int,
            bl as int,
            p as nat,
        ),
{
    let ghost start = out@;
    push_str(out, " L ");
    push_point(out, x + w, y + h - br, p);
    push_str(out, " Q ");
    push_point(out, x + w, y + h, p);
    push_str(out, " ");
    push_point(out, x + w - br, y + h, p);
    push_str(out, " L ");
    push_point(out, x + bl, y + h, p);
    push_str(out, " Q ");
    push_point(out, x, y + h, p);
    push_str(out, " ");
    push_point(out, x, y + h - bl, p);
    push_str(out, " L ");
    push_point(out, x, y + tl, p);
    push_str(out, " Q ");
    push_point(out, x, y, p);
    push_str(out, " ");
    push_point(out, x + tl, y, p);
    push_str(out, " Z");
    assert(out@ == start + path_bottom(
        x as int,
        y as int,
        w as int,
        h as int,
        tl as int,
        br as int,
        bl as int,
        p as nat,
    ));
}

fn push_rounded_path(out: &mut String, rect: &Rect, radii: &[i64; 4], p: usize)
    requires
        path_fits(*rect, *radii),
    ensures
        final(out)@ == old(out)@ + rounded_path(*rect, *radii, p as nat),
{
    let ghost start = out@;
    let (x, y, w, h) = (rect.x, rect.y, rect.width, rect.height);
    let tl = clamp_to(radii[0], w, h);
    let tr = clamp_to(radii[1], w, h);
    let br = clamp_to(radii[2], w, h);
    let bl = clamp_to(radii[3], w, h);
    push_path_top(out, x, y, w, tl, tr, p);
    push_path_bottom(out, x, y, w, h, tl, br, bl, p);
    assert(out@ == start + rounded_path(*rect, *radii, p as nat));
}

fn push_stroke_shape(out: &mut String, inner: &Rect, radii: &[i64; 4], p: usize)
    requires
        path_fits(*inner, *radii),
    ensures
        final(out)@ == old(out)@ + stroke_shape(*inner, *radii, p as nat),
{
    let ghost start = out@;
    let has_radius = any_radius(radii);
    if has_radius && !all_same(radii) {
        push_str(out, "<path d=\"");
        push_rounded_path(out, inner, radii, p);
        push_str(out, "\"");
    } else if has_radius {
        push_str(out, "<rect ");
        push_rect_attrs(out, inner, p);
        push_str(out, " rx=\"");
        push_fixed(out, radii[0], p);
        push_str(out, "\"");
    } else {
        push_str(out, "<rect ");
        push_rect_attrs(out, inner, p);
    }
    assert(out@ == start + stroke_shape(*inner, *radii, p as nat));
}

/// SVG path data for a rectangle with rounded corners: each radius is
/// limited to half the smaller side, and each corner is a quadratic curve.
pub fn rounded_rect_path(rect: &Rect, radii: &[i64; 4], precision: usize) -> (s: String)
    requires
        path_fits(*rect, *radii),
    ensures
        s@ == rounded_path(*rect, *radii, precision as nat),
{
    let mut out = String::new();
    push_rounded_path(&mut out, rect, radii, precision);
    out
}

/// Writes a command stream as SVG, numbering clip definitions in order.
pub struct SvgBuilder {
    pub output: String,
    pub options: SvgOptions,
    pub clip_id_counter: u64,
}

impl SvgBuilder {
    /// Starts a document of the given size.
    pub fn new(width: i64, height: i64, options: SvgOptions) -> (b: SvgBuilder)
        ensures
            b.output@ == svg_header(width as int, height as int, options),
            b.options == options,
            b.clip_id_counter == 0,
    {
        let p = options.precision;
        let mut output = String::new();
        if options.xml_declaration {
            push_str(&mut output, "<?xml version=\"1.0\" encoding=\"UTF-8\"?>\n");
        }
        push_str(
            &mut output,
            "<svg xmlns=\"http://www.w3.org/2000/svg\" xmlns:xlink=\"http://www.w3.org/1999/xlink\" width=\"",
        );
        push_fixed(&mut output, width, p);
        push_str(&mut output, "\" height=\"");
        push_fixed(&mut output, height, p);
        push_str(&mut output, "\" viewBox=\"0 0 ");
        push_fixed(&mut output, width, p);
        push_str(&mut output, " ");
        push_fixed(&mut output, height, p);
        push_str(&mut output, "\">");
        assert(output@ == svg_header(width as int, height as int, options));
        SvgBuilder { output, options, clip_id_counter: 0 }
    }

    /// Appends the text of one command.
    pub fn render_command(&mut self, cmd: &RenderCommand)
        requires
            old(self).clip_id_counter < u64::MAX,
            cmd.wf(),
        ensures
            final(self).output@ == old(self).output@ + command_text(
                *cmd,
                old(self).clip_id_counter as nat,
                old(self).options.precision as nat,
            ),
            final(self).clip_id_counter == old(self).clip_id_counter + clips_used(*cmd),
            final(self).options == old(self).options,
    {
        reveal(command_text);
        match cmd {
            RenderCommand::FillRect { rect, color, border_radius } => {
                self.render_fill_rect(rect, color, border_radius);
            },
            RenderCommand::StrokeRect { rect, color, width, border_radius } => {
                self.render_stroke_rect(rect, color, *width, border_radius);
            },
            RenderCommand::Text { font_family, font_size, font_weight, color, lines, .. } => {
                self.render_text(font_family.as_str(), *font_size, *font_weight, color, lines);
            },
            RenderCommand::TextPath { path_data, color } => {
                self.render_text_path(path_data.as_str(), color);
            },
            RenderCommand::Image { rect, src, border_radius } => {
                self.render_image(rect, src.as_str(), border_radius);
            },
            RenderCommand::PushClip { rect, border_radius } => {
                self.push_clip(rect, border_radius);
            },
            RenderCommand::PopClip => {
                self.pop_clip();
            },
            RenderCommand::PushOpacity { opacity } => {
                self.push_opacity(*opacity);
            },
            RenderCommand::PopOpacity => {
                self.pop_opacity();
            },
        }
    }

    pub fn render_fill_rect(&mut self, rect: &Rect, color: &Color, border_radius: &[i64; 4])
        requires
            rect.wf(),
            radii_wf(*border_radius),
        ensures
            final(self).output@ == old(self).output@ + fill_rect_text(
                *rect,
                *color,
                *border_radius,
                old(self).options.precision as nat,
            ),
            final(self).clip_id_counter == old(self).clip_id_counter,
            final(self).options == old(self).options,
    {
        if color.a == 0 {
            assert(self.output@ =~= self.output@ + Seq::<char>::empty());
            return;
        }
        let ghost start = self.output@;
        let p = self.options.precision;
        let has_radius = any_radius(border_radius);
        if has_radius && !all_same(border_radius) {
            push_str(&mut self.output, "<path d=\"");
            push_rounded_path(&mut self.output, rect, border_radius, p);
            push_str(&mut self.output, "\" fill=\"");
        } else if has_radius {
            push_str(&mut self.output, "<rect ");
            push_rect_attrs(&mut self.output, rect, p);
            push_str(&mut self.output, " rx=\"");
            push_fixed(&mut self.output, border_radius[0], p);
            push_str(&mut self.output, "\" fill=\"");
        } else {
            push_str(&mut self.output, "<rect ");
            push_rect_attrs(&mut self.output, rect, p);
            push_str(&mut self.output, " fill=\"");
        }
        let css = color.to_css();
        push_str(&mut self.output, css.as_str());
        push_str(&mut self.output, "\"/>");
        assert(self.output@ == start + fill_rect_text(*rect, *color, *border_radius, p as nat));
    }

    pub fn render_stroke_rect(
        &mut self,
        rect: &Rect,
        color: &Color,
        stroke_width: i64,
        border_radius: &[i64; 4],
    )
        requires
            rect.wf(),
            radii_wf(*border_radius),
            crate::render::in_extent(stroke_width as int),
        ensures
            final(self).output@ == old(self).output@ + stroke_rect_text(
                *rect,
                *color,
                stroke_width as int,
                *border_radius,
                old(self).options.precision as nat,
            ),
            final(self).clip_id_counter == old(self).clip_id_counter,
            final(self).options == old(self).options,
    {
        if color.a == 0 || stroke_width <= 0 {
            assert(self.output@ =~= self.output@ + Seq::<char>::empty());
            return;
        }
        let ghost start = self.output@;
        let p = self.options.precision;
        let inset = half_of(stroke_width);
        let inner = Rect {
            x: rect.x + inset,
            y: rect.y + inset,
            width: rect.width - stroke_width,
            height: rect.height - stroke_width,
        };
        assert(inner == stroke_inner(*rect, stroke_width as int));
        push_stroke_shape(&mut self.output, &inner, border_radius, p);
        let css = color.to_css();
        push_str(&mut self.output, " fill=\"none\" stroke=\"");
        push_str(&mut self.output, css.as_str());
        push_str(&mut self.output, "\" stroke-width=\"");
        push_fixed(&mut self.output, stroke_width, p);
        push_str(&mut self.output, "\"/>");
        assert(self.output@ == start + stroke_rect_text(
            *rect,
            *color,
            stroke_width as int,
            *border_radius,
            p as nat,
        ));
    }

    fn push_font_attrs(&mut self, color: &Color, font_family: &str, font_size: i64, font_weight: u16)
        ensures
            final(self).output@ == old(self).output@ + font_attrs(
                *color,
                font_family@,
                font_size as int,
                font_weight,
                old(self).options.precision as nat,
            ),
            final(self).clip_id_counter == old(self).clip_id_counter,
            final(self).options == old(self).options,
    {
        let ghost start = self.output@;
        let p = self.options.precision;
        let css = color.to_css();
        push_str(&mut self.output, "fill=\"");
        push_str(&mut self.output, css.as_str());
        push_str(&mut self.output, "\" font-family=\"");
        push_escaped(&mut self.output, font_family);
        push_str(&mut self.output, "\" font-size=\"");
        push_fixed(&mut self.output, font_size, p);
        push_str(&mut self.output, "\" font-weight=\"");
        push_decimal(&mut self.output, font_weight as u64);
        push_str(&mut self.output, "\"");
        assert(self.output@ == start + font_attrs(
            *color,
            font_family@,
            font_size as int,
            font_weight,
            p as nat,
        ));
    }

    fn push_tspans(&mut self, lines: &Vec<TextLineRender>)
        ensures
            final(self).output@ == old(self).output@ + tspans(
                lines@,
                old(self).options.precision as nat,
            ),
            final(self).clip_id_counter == old(self).clip_id_counter,
            final(self).options == old(self).options,
    {
        let ghost start = self.output@;
        let p = self.options.precision;
        let mut i: usize = 0;
        while i < lines.len()
            invariant
                i <= lines.len(),
                p == self.options.precision,
                self.options == old(self).options,
                self.clip_id_counter == old(self).clip_id_counter,
                self.output@ == start + tspans(lines@.take(i as int), p as nat),
            decreases lines.len() - i,
        {
            let line = &lines[i];
            push_str(&mut self.output, "<tspan x=\"");
            push_fixed(&mut self.output, line.x, p);
            push_str(&mut self.output, "\" y=\"");
            push_fixed(&mut self.output, line.y, p);
            push_str(&mut self.output, "\">");
            push_escaped(&mut self.output, line.text.as_str());
            push_str(&mut self.output, "</tspan>");
            assert(lines@.take(i + 1).drop_last() =~= lines@.take(i as int));
            assert(self.output@ == start + tspans(lines@.take(i + 1), p as nat));
            i = i + 1;
        }
        assert(lines@.take(lines.len() as int) =~= lines@);
    }

    pub fn render_text(
        &mut self,
        font_family: &str,
        font_size: i64,
        font_weight: u16,
        color: &Color,
        lines: &Vec<TextLineRender>,
    )
        ensures
            final(self).output@ == old(self).output@ + text_run_text(
                font_family@,
                font_size as int,
                font_weight,
                *color,
                lines@,
                old(self).options.precision as nat,
            ),
            final(self).clip_id_counter == old(self).clip_id_counter,
            final(self).options == old(self).options,
    {
        let ghost start = self.output@;
        let p = self.options.precision;
        if lines.len() == 0 {
            assert(self.output@ =~= self.output@ + Seq::<char>::empty());
            return;
        }
        if lines.len() == 1 {
            let line = &lines[0];
            push_str(&mut self.output, "<text x=\"");
            push_fixed(&mut self.output, line.x, p);
            push_str(&mut self.output, "\" y=\"");
            push_fixed(&mut self.output, line.y, p);
            push_str(&mut self.output, "\" ");
            self.push_font_attrs(color, font_family, font_size, font_weight);
            push_str(&mut self.output, ">");
            push_escaped(&mut self.output, line.text.as_str());
            push_str(&mut self.output, "</text>");
        } else {
            push_str(&mut self.output, "<text ");
            self.push_font_attrs(color, font_family, font_size, font_weight);
            push_str(&mut self.output, ">");
            self.push_tspans(lines);
            push_str(&mut self.output, "</text>");
        }
        assert(self.output@ == start + text_run_text(
            font_family@,
            font_size as int,
            font_weight,
            *color,
            lines@,
            p as nat,
        ));
    }

    pub fn render_text_path(&mut self, path_data: &str, color: &Color)
        ensures
            final(self).output@ == old(self).output@ + "<path d=\""@ + path_data@ + "\" fill=\""@
                + css_text(*color) + "\"/>"@,
            final(self).clip_id_counter == old(self).clip_id_counter,
            final(self).options == old(self).options,
    {
        let ghost start = self.output@;
        let css = color.to_css();
        push_str(&mut self.output, "<path d=\"");
        push_str(&mut self.output, path_data);
        push_str(&mut self.output, "\" fill=\"");
        push_str(&mut self.output, css.as_str());
        push_str(&mut self.output, "\"/>");
        assert(self.output@ == start + "<path d=\""@ + path_data@ + "\" fill=\""@ + css_text(
            *color,
        ) + "\"/>"@);
    }

    fn push_rounded_clip_shape(&mut self, rect: &Rect, border_radius: &[i64; 4])
        requires
            rect.wf(),
            radii_wf(*border_radius),
        ensures
            final(self).output@ == old(self).output@ + rounded_clip_shape(
                *rect,
                *border_radius,
                old(self).options.precision as nat,
            ),
            final(self).clip_id_counter == old(self).clip_id_counter,
            final(self).options == old(self).options,
    {
        let ghost start = self.output@;
        let p = self.options.precision;
        if all_same(border_radius) {
            push_str(&mut self.output, "<rect ");
            push_rect_attrs(&mut self.output, rect, p);
            push_str(&mut self.output, " rx=\"");
            push_fixed(&mut self.output, border_radius[0], p);
            push_str(&mut self.output, "\"/>");
        } else {
            push_str(&mut self.output, "<path d=\"");
            push_rounded_path(&mut self.output, rect, border_radius, p);
            push_str(&mut self.output, "\"/>");
        }
        assert(self.output@ == start + rounded_clip_shape(*rect, *border_radius, p as nat));
    }

    pub fn render_image(&mut self, rect: &Rect, src: &str, border_radius: &[i64; 4])
        requires
            rect.wf(),
            radii_wf(*border_radius),
            old(self).clip_id_counter < u64::MAX,
        ensures
            final(self).output@ == old(self).output@ + image_text(
                *rect,
                src@,
                *border_radius,
                old(self).clip_id_counter as nat,
                old(self).options.precision as nat,
            ),
            final(self).clip_id_counter == old(self).clip_id_counter + if has_radius(
                *border_radius,
            ) {
                1int
            } else {
                0int
            },
            final(self).options == old(self).options,
    {
        let ghost start = self.output@;
        let p = self.options.precision;
        if any_radius(border_radius) {
            let clip_id = self.clip_id_counter;
            self.clip_id_counter = self.clip_id_counter + 1;
            push_str(&mut self.output, "<defs><clipPath id=\"img-clip-");
            push_decimal(&mut self.output, clip_id);
            push_str(&mut self.output, "\">");
            self.push_rounded_clip_shape(rect, border_radius);
            push_str(&mut self.output, "</clipPath></defs><image ");
            push_rect_attrs(&mut self.output, rect, p);
            push_str(&mut self.output, " xlink:href=\"");
            push_escaped(&mut self.output, src);
            push_str(&mut self.output, "\" clip-path=\"url(#img-clip-");
            push_decimal(&mut self.output, clip_id);
            push_str(&mut self.output, ")\"/>");
        } else {
            push_str(&mut self.output, "<image ");
            push_rect_attrs(&mut self.output, rect, p);
            push_str(&mut self.output, " xlink:href=\"");
            push_escaped(&mut self.output, src);
            push_str(&mut self.output, "\"/>");
        }
        assert(self.output@ == start + image_text(
            *rect,
            src@,
            *border_radius,
            old(self).clip_id_counter as nat,
            p as nat,
        ));
    }

    pub fn push_clip(&mut self, rect: &Rect, border_radius: &[i64; 4])
        requires
            rect.wf(),
            radii_wf(*border_radius),
            old(self).clip_id_counter < u64::MAX,
        ensures
            final(self).output@ == old(self).output@ + push_clip_text(
                *rect,
                *border_radius,
                old(self).clip_id_counter as nat,
                old(self).options.precision as nat,
            ),
            final(self).clip_id_counter == old(self).clip_id_counter + 1,
            final(self).options == old(self).options,
    {
        let ghost start = self.output@;
        let clip_id = self.clip_id_counter;
        self.clip_id_counter = self.clip_id_counter + 1;
        let p = self.options.precision;
        push_str(&mut self.output, "<defs><clipPath id=\"clip-");
        push_decimal(&mut self.output, clip_id);
        push_str(&mut self.output, "\">");
        if any_radius(border_radius) {
            self.push_rounded_clip_shape(rect, border_radius);
        } else {
            push_str(&mut self.output, "<rect ");
            push_rect_attrs(&mut self.output, rect, p);
            push_str(&mut self.output, "/>");
        }
        push_str(&mut self.output, "</clipPath></defs><g clip-path=\"url(#clip-");
        push_decimal(&mut self.output, clip_id);
        push_str(&mut self.output, ")\">");
        assert(self.output@ == start + push_clip_text(
            *rect,
            *border_radius,
            clip_id as nat,
            p as nat,
        ));
    }

    pub fn pop_clip(&mut self)
        ensures
            final(self).output@ == old(self).output@ + "</g>"@,
            final(self).clip_id_counter == old(self).clip_id_counter,
            final(self).options == old(self).options,
    {
        push_str(&mut self.output, "</g>");
    }

    /// Opens a group drawn at `opacity` thousandths, printed to two decimals.
    pub fn push_opacity(&mut self, opacity: i64)
        ensures
            final(self).output@ == old(self).output@ + "<g opacity=\""@ + fixed_text(
                opacity as int,
                2,
            ) + "\">"@,
            final(self).clip_id_counter == old(self).clip_id_counter,
            final(self).options == old(self).options,
    {
        let ghost start = self.output@;
        push_str(&mut self.output, "<g opacity=\"");
        push_fixed(&mut self.output, opacity, 2);
        push_str(&mut self.output, "\">");
        assert(self.output@ == start + "<g opacity=\""@ + fixed_text(opacity as int, 2) + "\">"@);
    }

    pub fn pop_opacity(&mut self)
        ensures
            final(self).output@ == old(self).output@ + "</g>"@,
            final(self).clip_id_counter == old(self).clip_id_counter,
            final(self).options == old(self).options,
    {
        push_str(&mut self.output, "</g>");
    }

    /// Closes the document and returns its text.
    pub fn finish(self) -> (s: String)
        ensures
            s@ == self.output@ + "</svg>"@,
    {
        let mut output = self.output;
        push_str(&mut output, "</svg>");
        output
    }
}

/// The SVG text of a command stream.
pub fn generate_svg(tree: &RenderTree, options: &SvgOptions) -> (s: String)
    requires
        tree.wf(),
    ensures
        s@ == svg_document(*tree, *options),
{
    let mut svg = SvgBuilder::new(tree.width, tree.height, *options);
    let ghost header = svg.output@;
    let ghost p = options.precision as nat;
    let mut i: usize = 0;
    while i < tree.commands.len()
        invariant
            i <= tree.commands.len(),
            tree.wf(),
            svg.options == *options,
            p == options.precision as nat,
            header == svg_header(tree.width as int, tree.height as int, *options),
            svg.clip_id_counter == clips_in(tree.commands@.take(i as int)),
            svg.clip_id_counter <= i,
            svg.output@ == header + commands_text(tree.commands@.take(i as int), 0, p),
        decreases tree.commands.len() - i,
    {
        let ghost prev = tree.commands@.take(i as int);
        assert(tree.commands@.take(i + 1).drop_last() =~= prev);
        assert(tree.commands@[i as int].wf());
        let ghost cur = tree.commands@.take(i + 1);
        assert(cur.last() == tree.commands@[i as int]);
        assert(commands_text(cur, 0, p) == commands_text(prev, 0, p) + command_text(
            tree.commands@[i as int],
            clips_in(prev),
            p,
        ));
        assert(clips_in(cur) == clips_in(prev) + clips_used(tree.commands@[i as int]));
        let ghost before = svg.output@;
        let ghost id = svg.clip_id_counter;
        svg.render_command(&tree.commands[i]);
        proof {
            let a = commands_text(prev, 0, p);
            let b = command_text(tree.commands@[i as int], clips_in(prev), p);
            assert(id as nat == clips_in(prev));
            assert(svg.output@ == before + b);
            crate::strings::lemma_concat_assoc(header, a, b);
        }
        i = i + 1;
    }
    assert(tree.commands@.take(tree.commands.len() as int) =~= tree.commands@);
    svg.finish()
}

/// A rectangle whose four corner radii are zero is written as a plain
/// `<rect>`, and one whose four radii are equal and positive as a `<rect>`
/// with a single `rx`; neither becomes a path.
pub proof fn lemma_rect_shape_degenerates(rect: Rect, color: Color, radii: [i64; 4], p: nat)
    ensures
        (radii[0] == 0 && radii[1] == 0 && radii[2] == 0 && radii[3] == 0) ==> rect_shape(radii)
            == RectShape::Plain && (color.a != 0 ==> fill_rect_text(rect, color, radii, p) == "<rect "@
            + rect_attrs(rect, p) + " fill=\""@ + css_text(color) + "\"/>"@),
        (all_same_spec(radii) && radii[0] > 0) ==> rect_shape(radii) == RectShape::Rounded && (
        color.a != 0 ==> fill_rect_text(rect, color, radii, p) == "<rect "@ + rect_attrs(rect, p)
            + " rx=\""@ + num(radii[0] as int, p) + "\" fill=\""@ + css_text(color) + "\"/>"@),
{
}

} // verus!
