//! The layout tree: each element becomes a node with the geometry style the
//! layout solver takes, the context its measurement needs, and the resolved
//! paint data kept beside it. Also the decisions of leaf measurement.
use vstd::prelude::*;
use crate::color::Color;
use crate::CompileError;
use vstd::string::StringExecFns;
use crate::text::{fallback_measure, fallback_measure_spec, line_box, row_height};
use crate::style::{
    AlignItems, BorderRadius, BoxStyle, Dimension, Display, Element, FlexDirection, FlexStyle,
    FlexWrap, ImageStyle, JustifyContent, Spacing, TextAlign, TextRendering, TextStyle,
    corners_of, edges_of, ints4, percent_value, shorthand_valid, shorthand_values,
};

verus! {

/// Text style with every default applied. Sizes are in thousandths of a
/// pixel; line height is a multiple of the font size, in thousandths.
#[derive(Debug, Clone, PartialEq, Eq)]
pub struct TextStyleResolved {
    pub font_family: String,
    pub font_size: i64,
    pub font_weight: u16,
    pub line_height: i64,
    pub text_align: TextAlign,
    pub color: Color,
    pub letter_spacing: i64,
    pub text_rendering: TextRendering,
}

impl Default for TextStyleResolved {
    fn default() -> (r: TextStyleResolved)
        ensures
            r.font_family@ == "sans-serif"@,
            r.font_size == 16000,
            r.font_weight == 400,
            r.line_height == 1200,
            r.text_align == TextAlign::Left,
            r.color == (Color { r: 0, g: 0, b: 0, a: 255 }),
            r.letter_spacing == 0,
            r.text_rendering == TextRendering::Text,
    {
        TextStyleResolved {
            font_family: String::from_str("sans-serif"),
            font_size: 16000,
            font_weight: 400,
            line_height: 1200,
            text_align: TextAlign::Left,
            color: Color::black(),
            letter_spacing: 0,
            text_rendering: TextRendering::Text,
        }
    }
}

/// Paint properties of a node, which the layout solver does not see.
/// Opacity is in thousandths (1000 is opaque).
#[derive(Debug, Clone, PartialEq, Eq)]
pub struct VisualStyle {
    pub background_color: Option<Color>,
    pub border_width: i64,
    pub border_color: Option<Color>,
    pub border_radius: [i64; 4],
    pub opacity: i64,
}

/// What a node draws besides its paint properties.
#[derive(Debug, Clone, PartialEq, Eq)]
#[allow(inconsistent_fields)]
pub enum ElementType {
    Box,
    Flex,
    Text { content: String, style: TextStyleResolved },
    Image { src: String },
}

/// Data kept beside each layout node for painting.
#[derive(Debug, Clone, PartialEq, Eq)]
pub struct NodeData {
    pub element_type: ElementType,
    pub visual: VisualStyle,
}

/// Corner radii of an optional radius, zeros when absent.
pub open spec fn radius_of(r: Option<BorderRadius>) -> Seq<int> {
    match r {
        Some(BorderRadius::Uniform(v)) => seq![v as int, v as int, v as int, v as int],
        Some(BorderRadius::Multi(s)) => corners_of(shorthand_values(s@)),
        None => seq![0, 0, 0, 0],
    }
}

/// Edges of an optional spacing, zeros when absent.
pub open spec fn edges_value(s: Option<Spacing>) -> Seq<int> {
    match s {
        Some(Spacing::Uniform(v)) => seq![v as int, v as int, v as int, v as int],
        Some(Spacing::Multi(t)) => edges_of(shorthand_values(t@)),
        None => seq![0, 0, 0, 0],
    }
}

/// An optional spacing whose shorthand text, if any, is valid.
pub open spec fn spacing_ok(s: Option<Spacing>) -> bool {
    match s {
        Some(Spacing::Multi(t)) => shorthand_valid(t@),
        _ => true,
    }
}

/// An optional radius whose shorthand text, if any, is valid.
pub open spec fn radius_ok(r: Option<BorderRadius>) -> bool {
    match r {
        Some(BorderRadius::Multi(t)) => shorthand_valid(t@),
        _ => true,
    }
}

/// Whether an optional spacing is valid.
pub fn spacing_valid(s: &Option<Spacing>) -> (r: bool)
    ensures
        r == spacing_ok(*s),
{
    match s {
        Some(b) => b.to_edges().is_some(),
        None => true,
    }
}

/// Whether an optional radius is valid.
pub fn radius_valid(r: &Option<BorderRadius>) -> (v: bool)
    ensures
        v == radius_ok(*r),
{
    match r {
        Some(b) => b.to_corners().is_some(),
        None => true,
    }
}

fn radius_or_zero(r: &Option<BorderRadius>) -> (c: [i64; 4])
    requires
        radius_ok(*r),
    ensures
        ints4(c) == radius_of(*r),
{
    match r {
        Some(b) => match b.to_corners() {
            Some(c) => c,
            None => {
                proof {
                    assert(false);
                }
                [0i64, 0, 0, 0]
            },
        },
        None => {
            let c = [0i64, 0, 0, 0];
            assert(ints4(c) =~= seq![0int, 0, 0, 0]);
            c
        },
    }
}

fn edges_or_zero(s: &Option<Spacing>) -> (e: [i64; 4])
    requires
        spacing_ok(*s),
    ensures
        ints4(e) == edges_value(*s),
{
    match s {
        Some(b) => match b.to_edges() {
            Some(e) => e,
            None => {
                proof {
                    assert(false);
                }
                [0i64, 0, 0, 0]
            },
        },
        None => {
            let e = [0i64, 0, 0, 0];
            assert(ints4(e) =~= seq![0int, 0, 0, 0]);
            e
        },
    }
}

pub open spec fn or_default(v: Option<i64>, d: int) -> int {
    match v {
        Some(x) => x as int,
        None => d,
    }
}

fn unwrap_or(v: Option<i64>, d: i64) -> (r: i64)
    ensures
        r == or_default(v, d as int),
{
    match v {
        Some(x) => x,
        None => d,
    }
}

/// Paint properties of a container: no border or opacity unless given.
pub open spec fn container_visual(
    background_color: Option<Color>,
    border_width: Option<i64>,
    border_color: Option<Color>,
    border_radius: Option<BorderRadius>,
    opacity: Option<i64>,
    v: VisualStyle,
) -> bool {
    &&& v.background_color == background_color
    &&& v.border_width == or_default(border_width, 0)
    &&& v.border_color == border_color
    &&& ints4(v.border_radius) == radius_of(border_radius)
    &&& v.opacity == or_default(opacity, 1000)
}

/// Paint properties of a block container.
pub fn box_visual(style: &BoxStyle) -> (v: VisualStyle)
    requires
        radius_ok(style.border_radius),
    ensures
        container_visual(
            style.background_color,
            style.border_width,
            style.border_color,
            style.border_radius,
            style.opacity,
            v,
        ),
{
    VisualStyle {
        background_color: style.background_color,
        border_width: unwrap_or(style.border_width, 0),
        border_color: style.border_color,
        border_radius: radius_or_zero(&style.border_radius),
        opacity: unwrap_or(style.opacity, 1000),
    }
}

/// Paint properties of a flex container.
pub fn flex_visual(style: &FlexStyle) -> (v: VisualStyle)
    requires
        radius_ok(style.border_radius),
    ensures
        container_visual(
            style.background_color,
            style.border_width,
            style.border_color,
            style.border_radius,
            style.opacity,
            v,
        ),
{
    VisualStyle {
        background_color: style.background_color,
        border_width: unwrap_or(style.border_width, 0),
        border_color: style.border_color,
        border_radius: radius_or_zero(&style.border_radius),
        opacity: unwrap_or(style.opacity, 1000),
    }
}

/// Paint properties of an image: radius and opacity only.
pub fn image_visual(style: &ImageStyle) -> (v: VisualStyle)
    requires
        radius_ok(style.border_radius),
    ensures
        container_visual(None, None, None, style.border_radius, style.opacity, v),
{
    VisualStyle {
        background_color: None,
        border_width: 0,
        border_color: None,
        border_radius: radius_or_zero(&style.border_radius),
        opacity: unwrap_or(style.opacity, 1000),
    }
}

/// Paint properties of a text node: nothing but full opacity.
pub fn text_visual() -> (v: VisualStyle)
    ensures
        container_visual(None, None, None, None, None, v),
{
    let r = [0i64, 0, 0, 0];
    assert(ints4(r) =~= seq![0int, 0, 0, 0]);
    VisualStyle { background_color: None, border_width: 0, border_color: None, border_radius: r, opacity: 1000 }
}

fn clone_family(f: &Option<String>) -> (r: Option<String>)
    ensures
        r == *f,
{
    match f {
        Some(s) => Some(s.clone()),
        None => None,
    }
}

/// A text style with its defaults: the family falls back to
/// `default_family`, then to `sans-serif`; size 16; weight 400; line height
/// 1.2; left aligned; black; no letter spacing; drawn as text.
pub open spec fn resolved_text(style: TextStyle, default_family: Option<String>, r: TextStyleResolved) -> bool {
    &&& r.font_family@ == match style.font_family {
        Some(f) => f@,
        None => match default_family {
            Some(d) => d@,
            None => "sans-serif"@,
        },
    }
    &&& r.font_size == or_default(style.font_size, 16000)
    &&& r.font_weight == match style.font_weight {
        Some(w) => w.0,
        None => 400,
    }
    &&& r.line_height == or_default(style.line_height, 1200)
    &&& r.text_align == match style.text_align {
        Some(a) => a,
        None => TextAlign::Left,
    }
    &&& r.color == match style.color {
        Some(c) => c,
        None => Color { r: 0, g: 0, b: 0, a: 255 },
    }
    &&& r.letter_spacing == or_default(style.letter_spacing, 0)
    &&& r.text_rendering == match style.text_rendering {
        Some(t) => t,
        None => TextRendering::Text,
    }
}

/// Resolves a text style, taking `default_family` for an unset family.
pub fn resolve_text_style(style: &TextStyle, default_family: &Option<String>) -> (r: TextStyleResolved)
    ensures
        resolved_text(*style, *default_family, r),
{
    let font_family = match &style.font_family {
        Some(f) => f.clone(),
        None => match default_family {
            Some(d) => d.clone(),
            None => String::from_str("sans-serif"),
        },
    };
    TextStyleResolved {
        font_family,
        font_size: unwrap_or(style.font_size, 16000),
        font_weight: match style.font_weight {
            Some(w) => w.0,
            None => 400,
        },
        line_height: unwrap_or(style.line_height, 1200),
        text_align: match style.text_align {
            Some(a) => a,
            None => TextAlign::Left,
        },
        color: match style.color {
            Some(c) => c,
            None => Color::black(),
        },
        letter_spacing: unwrap_or(style.letter_spacing, 0),
        text_rendering: match style.text_rendering {
            Some(t) => t,
            None => TextRendering::Text,
        },
    }
}

/// What the measurement of a text leaf needs.
#[derive(Debug, Clone, PartialEq, Eq)]
pub struct TextContext {
    pub content: String,
    pub font_family: Option<String>,
    pub font_size: i64,
    pub font_weight: u16,
    pub line_height: i64,
    pub letter_spacing: i64,
}

impl Default for TextContext {
    fn default() -> (r: TextContext)
        ensures
            r.content@ == Seq::<char>::empty(),
            r.font_family is None,
            r.font_size == 16000,
            r.font_weight == 400,
            r.line_height == 1200,
            r.letter_spacing == 0,
    {
        TextContext {
            content: String::new(),
            font_family: None,
            font_size: 16000,
            font_weight: 400,
            line_height: 1200,
            letter_spacing: 0,
        }
    }
}

/// What a leaf carries for measurement.
#[derive(Debug, Clone, PartialEq, Eq)]
pub enum NodeContext {
    Text(TextContext),
    /// An image's intrinsic size.
    Image { width: i64, height: i64 },
}

pub open spec fn text_context_ok(r: TextContext, content: String, style: TextStyle) -> bool {
    &&& r.content == content
    &&& r.font_family == style.font_family
    &&& r.font_size == or_default(style.font_size, 16000)
    &&& r.font_weight == match style.font_weight {
        Some(w) => w.0,
        None => 400u16
    }
    &&& r.line_height == or_default(style.line_height, 1200)
    &&& r.letter_spacing == or_default(style.letter_spacing, 0)
}

/// The measurement context of a text leaf.
pub fn text_context(content: &String, style: &TextStyle) -> (r: TextContext)
    ensures
        text_context_ok(r, *content, *style),
{
    TextContext {
        content: content.clone(),
        font_family: clone_family(&style.font_family),
        font_size: unwrap_or(style.font_size, 16000),
        font_weight: match style.font_weight {
            Some(w) => w.0,
            None => 400,
        },
        line_height: unwrap_or(style.line_height, 1200),
        letter_spacing: unwrap_or(style.letter_spacing, 0),
    }
}

/// A size as the layout solver takes it.
#[derive(Debug, Clone, Copy, PartialEq, Eq, Structural)]
pub enum SizeValue {
    Auto,
    /// Thousandths of a pixel.
    Length(i64),
    /// Thousandths of a percent of the container.
    Percent(i64),
}

/// The solver's display mode of a node.
#[derive(Debug, Clone, Copy, PartialEq, Eq, Structural)]
pub enum DisplayMode {
    Block,
    Flex,
    Hidden,
}

/// The geometry-only style that the layout solver receives for a node.
/// Edges are `[top, right, bottom, left]` in thousandths of a pixel; flex
/// factors are in thousandths.
#[derive(Debug, Clone, Copy)]
pub struct NodeStyle {
    pub display: DisplayMode,
    pub width: SizeValue,
    pub height: SizeValue,
    pub min_width: SizeValue,
    pub min_height: SizeValue,
    pub max_width: SizeValue,
    pub max_height: SizeValue,
    pub margin: [i64; 4],
    pub padding: [i64; 4],
    pub border: [i64; 4],
    pub flex_direction: FlexDirection,
    pub justify_content: Option<JustifyContent>,
    pub align_items: Option<AlignItems>,
    pub gap: i64,
    pub flex_wrap: FlexWrap,
    pub flex_grow: i64,
    pub flex_shrink: i64,
}

/// The solver's size for an optional dimension.
pub open spec fn size_value(d: Option<Dimension>) -> SizeValue {
    match d {
        None => SizeValue::Auto,
        Some(Dimension::Px(v)) => SizeValue::Length(v),
        Some(Dimension::Percent(s)) => SizeValue::Percent(percent_value(s@) as i64),
    }
}

/// The solver's size for an optional dimension.
pub fn dimension_size(d: &Option<Dimension>) -> (r: SizeValue)
    ensures
        r == size_value(*d),
{
    match d {
        None => SizeValue::Auto,
        Some(Dimension::Px(v)) => SizeValue::Length(*v),
        Some(Dimension::Percent(s)) => SizeValue::Percent(crate::style::percent_text(s.as_str())),
    }
}

/// The solver's defaults: a flex row with automatic sizes, no spacing,
/// no growth and a shrink factor of one.
pub open spec fn is_default_style(n: NodeStyle) -> bool {
    &&& n.display == DisplayMode::Flex
    &&& n.width == SizeValue::Auto && n.height == SizeValue::Auto
    &&& n.min_width == SizeValue::Auto && n.min_height == SizeValue::Auto
    &&& n.max_width == SizeValue::Auto && n.max_height == SizeValue::Auto
    &&& ints4(n.margin) == seq![0int, 0, 0, 0]
    &&& ints4(n.padding) == seq![0int, 0, 0, 0]
    &&& ints4(n.border) == seq![0int, 0, 0, 0]
    &&& n.flex_direction == FlexDirection::Row
    &&& n.justify_content is None && n.align_items is None
    &&& n.gap == 0
    &&& n.flex_wrap == FlexWrap::Nowrap
    &&& n.flex_grow == 0 && n.flex_shrink == 1000
}

/// The solver's default style.
pub fn default_node_style() -> (n: NodeStyle)
    ensures
        is_default_style(n),
{
    let z = [0i64, 0, 0, 0];
    assert(ints4(z) =~= seq![0int, 0, 0, 0]);
    NodeStyle {
        display: DisplayMode::Flex,
        width: SizeValue::Auto,
        height: SizeValue::Auto,
        min_width: SizeValue::Auto,
        min_height: SizeValue::Auto,
        max_width: SizeValue::Auto,
        max_height: SizeValue::Auto,
        margin: z,
        padding: z,
        border: z,
        flex_direction: FlexDirection::Row,
        justify_content: None,
        align_items: None,
        gap: 0,
        flex_wrap: FlexWrap::Nowrap,
        flex_grow: 0,
        flex_shrink: 1000,
    }
}

fn border_edges(w: Option<i64>) -> (e: [i64; 4])
    ensures
        ints4(e) == match w {
            Some(v) => seq![v as int, v as int, v as int, v as int],
            None => seq![0int, 0, 0, 0],
        },
{
    let v = unwrap_or(w, 0);
    let e = [v, v, v, v];
    assert(ints4(e) =~= match w {
        Some(v) => seq![v as int, v as int, v as int, v as int],
        None => seq![0int, 0, 0, 0],
    });
    e
}

/// The box model shared by containers: display, sizes and spacing.
pub open spec fn container_geometry(
    n: NodeStyle,
    display: Option<Display>,
    shown: DisplayMode,
    width: Option<Dimension>,
    height: Option<Dimension>,
    min_width: Option<Dimension>,
    min_height: Option<Dimension>,
    max_width: Option<Dimension>,
    max_height: Option<Dimension>,
    margin: Option<Spacing>,
    padding: Option<Spacing>,
    border_width: Option<i64>,
) -> bool {
    &&& n.display == if display == Some(Display::Hidden) {
        DisplayMode::Hidden
    } else {
        shown
    }
    &&& n.width == size_value(width) && n.height == size_value(height)
    &&& n.min_width == size_value(min_width) && n.min_height == size_value(min_height)
    &&& n.max_width == size_value(max_width) && n.max_height == size_value(max_height)
    &&& ints4(n.margin) == edges_value(margin)
    &&& ints4(n.padding) == edges_value(padding)
    &&& ints4(n.border) == match border_width {
        Some(v) => seq![v as int, v as int, v as int, v as int],
        None => seq![0int, 0, 0, 0],
    }
}

pub open spec fn box_style_ok(n: NodeStyle, style: BoxStyle) -> bool {
    &&& container_geometry(
        n,
        style.display,
        DisplayMode::Block,
        style.width,
        style.height,
        style.min_width,
        style.min_height,
        style.max_width,
        style.max_height,
        style.margin,
        style.padding,
        style.border_width
    )
    &&& n.flex_direction == FlexDirection::Row
    &&& n.justify_content is None && n.align_items is None
    &&& n.gap == 0 && n.flex_wrap == FlexWrap::Nowrap
    &&& n.flex_grow == 0 && n.flex_shrink == 1000
}

/// Solver style of a block container.
pub fn box_node_style(style: &BoxStyle) -> (n: NodeStyle)
    requires
        spacing_ok(style.margin),
        spacing_ok(style.padding),
    ensures
        box_style_ok(n, *style),
{
    let mut n = default_node_style();
    n.display = match style.display {
        Some(Display::Hidden) => DisplayMode::Hidden,
        _ => DisplayMode::Block,
    };
    n.width = dimension_size(&style.width);
    n.height = dimension_size(&style.height);
    n.min_width = dimension_size(&style.min_width);
    n.min_height = dimension_size(&style.min_height);
    n.max_width = dimension_size(&style.max_width);
    n.max_height = dimension_size(&style.max_height);
    n.margin = edges_or_zero(&style.margin);
    n.padding = edges_or_zero(&style.padding);
    n.border = border_edges(style.border_width);
    n
}

pub open spec fn flex_style_ok(n: NodeStyle, style: FlexStyle) -> bool {
    &&& container_geometry(
        n,
        style.display,
        DisplayMode::Flex,
        style.width,
        style.height,
        style.min_width,
        style.min_height,
        style.max_width,
        style.max_height,
        style.margin,
        style.padding,
        style.border_width
    )
    &&& n.flex_direction == match style.flex_direction {
        Some(d) => d,
        None => FlexDirection::Row
    }
    &&& n.justify_content == Some(
        match style.justify_content {
            Some(j) => j,
            None => JustifyContent::FlexStart,
        }
    )
    &&& n.align_items == Some(
        match style.align_items {
            Some(a) => a,
            None => AlignItems::Stretch,
        }
    )
    &&& n.gap == or_default(style.gap, 0)
    &&& n.flex_wrap == match style.flex_wrap {
        Some(w) => w,
        None => FlexWrap::Nowrap
    }
    &&& n.flex_grow == 0 && n.flex_shrink == 1000
}

/// Solver style of a flex container: a row starting at the start and
/// stretching its items unless told otherwise.
pub fn flex_node_style(style: &FlexStyle) -> (n: NodeStyle)
    requires
        spacing_ok(style.margin),
        spacing_ok(style.padding),
    ensures
        flex_style_ok(n, *style),
{
    let mut n = default_node_style();
    n.display = match style.display {
        Some(Display::Hidden) => DisplayMode::Hidden,
        _ => DisplayMode::Flex,
    };
    n.width = dimension_size(&style.width);
    n.height = dimension_size(&style.height);
    n.min_width = dimension_size(&style.min_width);
    n.min_height = dimension_size(&style.min_height);
    n.max_width = dimension_size(&style.max_width);
    n.max_height = dimension_size(&style.max_height);
    n.margin = edges_or_zero(&style.margin);
    n.padding = edges_or_zero(&style.padding);
    n.border = border_edges(style.border_width);
    n.flex_direction = match style.flex_direction {
        Some(d) => d,
        None => FlexDirection::Row,
    };
    n.justify_content = Some(
        match style.justify_content {
            Some(j) => j,
            None => JustifyContent::FlexStart,
        },
    );
    n.align_items = Some(
        match style.align_items {
            Some(a) => a,
            None => AlignItems::Stretch,
        },
    );
    n.gap = unwrap_or(style.gap, 0);
    n.flex_wrap = match style.flex_wrap {
        Some(w) => w,
        None => FlexWrap::Nowrap,
    };
    n
}

pub open spec fn text_style_ok(n: NodeStyle, style: TextStyle) -> bool {
    &&& is_default_style(NodeStyle { flex_grow: 0, flex_shrink: 1000, ..n })
    &&& n.flex_grow == or_default(style.flex_grow, 0)
    &&& n.flex_shrink == or_default(style.flex_shrink, 1000)
}

/// Solver style of a text leaf: the defaults with its flex factors.
pub fn text_node_style(style: &TextStyle) -> (n: NodeStyle)
    ensures
        text_style_ok(n, *style),
{
    let mut n = default_node_style();
    n.flex_grow = unwrap_or(style.flex_grow, 0);
    n.flex_shrink = unwrap_or(style.flex_shrink, 1000);
    n
}

pub open spec fn image_style_ok(n: NodeStyle, style: ImageStyle, intrinsic_width: i64, intrinsic_height: i64) -> bool {
    &&& n.display == DisplayMode::Flex
    &&& n.width == match style.width {
        Some(_) => size_value(style.width),
        None => SizeValue::Length(intrinsic_width)
    }
    &&& n.height == match style.height {
        Some(_) => size_value(style.height),
        None => SizeValue::Length(intrinsic_height)
    }
    &&& n.min_width == size_value(style.min_width) && n.min_height == size_value(style.min_height)
    &&& n.max_width == size_value(style.max_width) && n.max_height == size_value(style.max_height)
    &&& ints4(n.margin) == edges_value(style.margin)
    &&& ints4(n.padding) == seq![0int, 0, 0, 0] && ints4(n.border) == seq![0int, 0, 0, 0]
    &&& n.flex_direction == FlexDirection::Row
    &&& n.justify_content is None && n.align_items is None
    &&& n.gap == 0 && n.flex_wrap == FlexWrap::Nowrap
    &&& n.flex_grow == or_default(style.flex_grow, 0)
    &&& n.flex_shrink == or_default(style.flex_shrink, 1000)
}

/// Solver style of an image: its intrinsic size unless a size is given.
pub fn image_node_style(style: &ImageStyle, intrinsic_width: i64, intrinsic_height: i64) -> (n: NodeStyle)
    requires
        spacing_ok(style.margin),
    ensures
        image_style_ok(n, *style, intrinsic_width, intrinsic_height),
{
    let mut n = default_node_style();
    n.width = match &style.width {
        Some(_) => dimension_size(&style.width),
        None => SizeValue::Length(intrinsic_width),
    };
    n.height = match &style.height {
        Some(_) => dimension_size(&style.height),
        None => SizeValue::Length(intrinsic_height),
    };
    n.min_width = dimension_size(&style.min_width);
    n.min_height = dimension_size(&style.min_height);
    n.max_width = dimension_size(&style.max_width);
    n.max_height = dimension_size(&style.max_height);
    n.margin = edges_or_zero(&style.margin);
    n.flex_grow = unwrap_or(style.flex_grow, 0);
    n.flex_shrink = unwrap_or(style.flex_shrink, 1000);
    n
}

/// A node ready for the layout solver: its geometry style, the context its
/// measurement needs (leaves only), its paint data, and its children in
/// document order.
#[derive(Debug)]
pub struct LayoutNode {
    pub style: NodeStyle,
    pub context: Option<NodeContext>,
    pub data: NodeData,
    pub children: Vec<LayoutNode>,
}

/// The node that `e` becomes, apart from its children.
pub open spec fn node_of(n: LayoutNode, e: Element, default_family: Option<String>) -> bool {
    match e {
        Element::Box { style, children } => {
            &&& box_style_ok(n.style, style)
            &&& n.context is None
            &&& n.data.element_type == ElementType::Box
            &&& container_visual(
                style.background_color,
                style.border_width,
                style.border_color,
                style.border_radius,
                style.opacity,
                n.data.visual,
            )
        },
        Element::Flex { style, children } => {
            &&& flex_style_ok(n.style, style)
            &&& n.context is None
            &&& n.data.element_type == ElementType::Flex
            &&& container_visual(
                style.background_color,
                style.border_width,
                style.border_color,
                style.border_radius,
                style.opacity,
                n.data.visual,
            )
        },
        Element::Text { content, style } => {
            &&& text_style_ok(n.style, style)
            &&& n.context matches Some(NodeContext::Text(c)) && text_context_ok(c, content, style)
            &&& n.data.element_type matches ElementType::Text { content: c, style: r } && c == content
                && resolved_text(style, default_family, r)
            &&& container_visual(None, None, None, None, None, n.data.visual)
            &&& n.children@.len() == 0
        },
        Element::Image { src, width, height, style } => {
            &&& image_style_ok(n.style, style, width, height)
            &&& n.context == Some(NodeContext::Image { width, height })
            &&& n.data.element_type == ElementType::Image { src }
            &&& container_visual(None, None, None, style.border_radius, style.opacity, n.data.visual)
            &&& n.children@.len() == 0
        },
    }
}

/// Every spacing and radius shorthand of `e` and of its subtree is valid.
pub open spec fn shorthands_ok(e: Element) -> bool
    decreases e,
{
    match e {
        Element::Box { style, children } => spacing_ok(style.margin) && spacing_ok(style.padding)
            && radius_ok(style.border_radius) && forall|i: int|
            0 <= i < children@.len() ==> shorthands_ok(#[trigger] children@[i]),
        Element::Flex { style, children } => spacing_ok(style.margin) && spacing_ok(style.padding)
            && radius_ok(style.border_radius) && forall|i: int|
            0 <= i < children@.len() ==> shorthands_ok(#[trigger] children@[i]),
        Element::Text { .. } => true,
        Element::Image { style, .. } => spacing_ok(style.margin) && radius_ok(style.border_radius),
    }
}

/// `n` is the layout tree of `e`: each node is built from its element, and
/// children correspond one to one, in order.
pub open spec fn built_from(n: LayoutNode, e: Element, default_family: Option<String>) -> bool
    decreases e,
{
    &&& node_of(n, e, default_family)
    &&& match e {
        Element::Box { children, .. } => n.children@.len() == children@.len() && forall|i: int|
            0 <= i < children@.len() ==> built_from(
                #[trigger] n.children@[i],
                children@[i],
                default_family,
            ),
        Element::Flex { children, .. } => n.children@.len() == children@.len() && forall|i: int|
            0 <= i < children@.len() ==> built_from(
                #[trigger] n.children@[i],
                children@[i],
                default_family,
            ),
        _ => true,
    }
}

fn shorthand_error() -> (e: CompileError)
    ensures
        e.kind@ == "parse_error"@,
{
    CompileError::parse_error(String::from_str("invalid spacing or border radius shorthand"))
}

/// Builds the layout tree of an element and its subtree, in document order;
/// fails with a `parse_error` exactly when some spacing or radius shorthand
/// in the subtree has a word that is not a number.
pub fn build_node(element: &Element, default_family: &Option<String>) -> (r: Result<LayoutNode, CompileError>)
    ensures
        r is Ok <==> shorthands_ok(*element),
        r matches Ok(n) ==> built_from(n, *element, *default_family),
        r matches Err(e) ==> e.kind@ == "parse_error"@,
    decreases element,
{
    match element {
        Element::Box { style, children } => {
            if !(spacing_valid(&style.margin) && spacing_valid(&style.padding) && radius_valid(
                &style.border_radius,
            )) {
                return Err(shorthand_error());
            }
            let kids = match build_children(children, default_family) {
                Ok(k) => k,
                Err(e) => {
                    return Err(e);
                },
            };
            Ok(
                LayoutNode {
                    style: box_node_style(style),
                    context: None,
                    data: NodeData { element_type: ElementType::Box, visual: box_visual(style) },
                    children: kids,
                },
            )
        },
        Element::Flex { style, children } => {
            if !(spacing_valid(&style.margin) && spacing_valid(&style.padding) && radius_valid(
                &style.border_radius,
            )) {
                return Err(shorthand_error());
            }
            let kids = match build_children(children, default_family) {
                Ok(k) => k,
                Err(e) => {
                    return Err(e);
                },
            };
            Ok(
                LayoutNode {
                    style: flex_node_style(style),
                    context: None,
                    data: NodeData { element_type: ElementType::Flex, visual: flex_visual(style) },
                    children: kids,
                },
            )
        },
        Element::Text { content, style } => {
            Ok(
                LayoutNode {
                    style: text_node_style(style),
                    context: Some(NodeContext::Text(text_context(content, style))),
                    data: NodeData {
                        element_type: ElementType::Text {
                            content: content.clone(),
                            style: resolve_text_style(style, default_family),
                        },
                        visual: text_visual(),
                    },
                    children: Vec::new(),
                },
            )
        },
        Element::Image { src, width, height, style } => {
            if !(spacing_valid(&style.margin) && radius_valid(&style.border_radius)) {
                return Err(shorthand_error());
            }
            Ok(
                LayoutNode {
                    style: image_node_style(style, *width, *height),
                    context: Some(NodeContext::Image { width: *width, height: *height }),
                    data: NodeData {
                        element_type: ElementType::Image { src: src.clone() },
                        visual: image_visual(style),
                    },
                    children: Vec::new(),
                },
            )
        },
    }
}

fn build_children(children: &Vec<Element>, default_family: &Option<String>) -> (r: Result<Vec<LayoutNode>, CompileError>)
    ensures
        r is Ok <==> forall|i: int| 0 <= i < children@.len() ==> shorthands_ok(#[trigger] children@[i]),
        r matches Ok(v) ==> v@.len() == children@.len() && forall|i: int|
            0 <= i < children@.len() ==> built_from(#[trigger] v@[i], children@[i], *default_family),
        r matches Err(e) ==> e.kind@ == "parse_error"@,
    decreases children,
{
    let mut out: Vec<LayoutNode> = Vec::new();
    let mut i: usize = 0;
    while i < children.len()
        invariant
            i <= children.len(),
            out@.len() == i,
            forall|k: int| 0 <= k < i ==> shorthands_ok(#[trigger] children@[k]),
            forall|k: int| 0 <= k < i ==> built_from(#[trigger] out@[k], children@[k], *default_family),
        decreases children.len() - i,
    {
        match build_node(&children[i], default_family) {
            Ok(n) => {
                out.push(n);
            },
            Err(e) => {
                assert(!shorthands_ok(children@[i as int]));
                return Err(e);
            },
        }
        i = i + 1;
    }
    Ok(out)
}

/// The space the solver offers a leaf along one axis.
#[derive(Debug, Clone, Copy, PartialEq, Eq, Structural)]
pub enum AvailableSpace {
    /// A definite size in thousandths of a pixel.
    Definite(i64),
    MinContent,
    MaxContent,
}

/// The width a text may wrap at: a definite width as given, none for the
/// minimum content size, and no limit for the maximum content size.
pub open spec fn wrap_width_spec(a: AvailableSpace) -> Option<i64> {
    match a {
        AvailableSpace::Definite(w) => Some(w),
        AvailableSpace::MinContent => Some(0),
        AvailableSpace::MaxContent => None,
    }
}

pub fn wrap_width(a: AvailableSpace) -> (r: Option<i64>)
    ensures
        r == wrap_width_spec(a),
{
    match a {
        AvailableSpace::Definite(w) => Some(w),
        AvailableSpace::MinContent => Some(0),
        AvailableSpace::MaxContent => None,
    }
}

/// What measuring a leaf takes.
#[derive(Debug, Clone, Copy, PartialEq, Eq, Structural)]
pub enum MeasureStep {
    /// The size is known without shaping.
    Size { width: i64, height: i64 },
    /// The text must be shaped, wrapping at `max_width` (no limit if `None`).
    ShapeText { max_width: Option<i64> },
}

/// The measurement decision for a leaf: a text whose two dimensions are
/// both known keeps them; an empty text is one line high; any other text is
/// shaped; an image takes its intrinsic size where a dimension is unknown;
/// a node without context has no size.
pub open spec fn measure_step_spec(
    known_width: Option<i64>,
    known_height: Option<i64>,
    available_width: AvailableSpace,
    context: Option<NodeContext>,
) -> MeasureStep {
    match context {
        Some(NodeContext::Text(ctx)) => if known_width is Some && known_height is Some {
            MeasureStep::Size { width: known_width->0, height: known_height->0 }
        } else if ctx.content@.len() == 0 {
            MeasureStep::Size { width: 0, height: row_height(ctx.font_size as int, 1200) as i64 }
        } else {
            MeasureStep::ShapeText { max_width: wrap_width_spec(available_width) }
        },
        Some(NodeContext::Image { width, height }) => MeasureStep::Size {
            width: match known_width {
                Some(w) => w,
                None => width,
            },
            height: match known_height {
                Some(h) => h,
                None => height,
            },
        },
        None => MeasureStep::Size { width: 0, height: 0 },
    }
}

/// Decides how to size a leaf for the layout solver.
pub fn measure_step(
    known_width: Option<i64>,
    known_height: Option<i64>,
    available_width: AvailableSpace,
    context: &Option<NodeContext>,
) -> (r: MeasureStep)
    ensures
        r == measure_step_spec(known_width, known_height, available_width, *context),
{
    match context {
        Some(NodeContext::Text(ctx)) => {
            if known_width.is_some() && known_height.is_some() {
                MeasureStep::Size { width: known_width.unwrap(), height: known_height.unwrap() }
            } else if crate::text::char_count(&ctx.content) == 0 {
                MeasureStep::Size { width: 0, height: line_box(ctx.font_size, 1200) }
            } else {
                MeasureStep::ShapeText { max_width: wrap_width(available_width) }
            }
        },
        Some(NodeContext::Image { width, height }) => MeasureStep::Size {
            width: match known_width {
                Some(w) => w,
                None => *width,
            },
            height: match known_height {
                Some(h) => h,
                None => *height,
            },
        },
        None => MeasureStep::Size { width: 0, height: 0 },
    }
}

/// The size of a shaped text: the shaping result, unless it has no area,
/// in which case no font could shape the text and the estimate (at a line
/// height of 1.2) is used.
pub fn settle_text_size(
    content: &str,
    font_size: i64,
    max_width: Option<i64>,
    shaped_width: i64,
    shaped_height: i64,
) -> (r: (i64, i64))
    ensures
        (shaped_width != 0 && shaped_height != 0) ==> r == (shaped_width, shaped_height),
        (shaped_width == 0 || shaped_height == 0) ==> r == fallback_measure_spec(content@, font_size, 1200, max_width),
{
    if shaped_width == 0 || shaped_height == 0 {
        fallback_measure(content, font_size, 1200, max_width)
    } else {
        (shaped_width, shaped_height)
    }
}

} // verus!
