//! The drawing-command stream, and the flattening of a laid-out tree into it.
use vstd::prelude::*;
use crate::color::Color;
use crate::layout::{ElementType, NodeData, TextStyleResolved, VisualStyle};
use crate::text::TextLine;

verus! {

/// Largest magnitude of a coordinate or size, in thousandths of a pixel.
pub const MAX_EXTENT: i64 = 1_000_000_000_000;

pub open spec fn in_extent(v: int) -> bool {
    -MAX_EXTENT <= v <= MAX_EXTENT
}

/// A rectangle in thousandths of a pixel.
#[derive(Debug, Clone, Copy, PartialEq, Eq, Structural)]
pub struct Rect {
    pub x: i64,
    pub y: i64,
    pub width: i64,
    pub height: i64,
}

impl Rect {
    pub open spec fn wf(&self) -> bool {
        in_extent(self.x as int) && in_extent(self.y as int) && in_extent(self.width as int)
            && in_extent(self.height as int)
    }
}

pub open spec fn radii_wf(r: [i64; 4]) -> bool {
    in_extent(r[0] as int) && in_extent(r[1] as int) && in_extent(r[2] as int) && in_extent(
        r[3] as int,
    )
}

/// One line of text with its absolute position.
#[derive(Debug, Clone, PartialEq, Eq)]
pub struct TextLineRender {
    pub x: i64,
    pub y: i64,
    pub text: String,
}

/// A drawing command. Coordinates are absolute, in thousandths of a pixel;
/// opacity is in thousandths.
#[derive(Debug, Clone, PartialEq, Eq)]
#[allow(inconsistent_fields)]
pub enum RenderCommand {
    FillRect { rect: Rect, color: Color, border_radius: [i64; 4] },
    StrokeRect { rect: Rect, color: Color, width: i64, border_radius: [i64; 4] },
    Text {
        x: i64,
        y: i64,
        content: String,
        font_family: String,
        font_size: i64,
        font_weight: u16,
        color: Color,
        lines: Vec<TextLineRender>,
    },
    TextPath { path_data: String, color: Color },
    Image { rect: Rect, src: String, border_radius: [i64; 4] },
    PushClip { rect: Rect, border_radius: [i64; 4] },
    PopClip,
    PushOpacity { opacity: i64 },
    PopOpacity,
}

impl RenderCommand {
    /// Every value that geometry is computed from lies within the extent.
    pub open spec fn wf(&self) -> bool {
        match self {
            RenderCommand::FillRect { rect, border_radius, .. } => rect.wf() && radii_wf(
                *border_radius,
            ),
            RenderCommand::StrokeRect { rect, width, border_radius, .. } => rect.wf() && radii_wf(
                *border_radius,
            ) && in_extent(*width as int),
            RenderCommand::Image { rect, border_radius, .. } => rect.wf() && radii_wf(
                *border_radius,
            ),
            RenderCommand::PushClip { rect, border_radius } => rect.wf() && radii_wf(
                *border_radius,
            ),
            _ => true,
        }
    }
}

/// The command stream of a document and the size of its canvas.
#[derive(Debug)]
pub struct RenderTree {
    pub commands: Vec<RenderCommand>,
    pub width: i64,
    pub height: i64,
}

impl RenderTree {
    pub open spec fn wf(&self) -> bool {
        forall|i: int| 0 <= i < self.commands@.len() ==> (#[trigger] self.commands@[i]).wf()
    }
}

/// `v` limited to the extent.
pub open spec fn ext(v: int) -> int {
    if v < -MAX_EXTENT {
        -MAX_EXTENT as int
    } else if v > MAX_EXTENT {
        MAX_EXTENT as int
    } else {
        v
    }
}

/// A command as the contracts see it: a text run's lines as a sequence.
pub enum CommandView {
    /// Any command but a text run.
    Plain(RenderCommand),
    Text {
        x: int,
        y: int,
        content: String,
        font_family: String,
        font_size: int,
        font_weight: u16,
        color: Color,
        lines: Seq<TextLineRender>,
    },
}

impl RenderCommand {
    pub open spec fn view_cmd(&self) -> CommandView {
        match self {
            RenderCommand::Text { x, y, content, font_family, font_size, font_weight, color, lines } =>
                CommandView::Text {
                x: *x as int,
                y: *y as int,
                content: *content,
                font_family: *font_family,
                font_size: *font_size as int,
                font_weight: *font_weight,
                color: *color,
                lines: lines@,
            },
            _ => CommandView::Plain(*self),
        }
    }
}

pub open spec fn views(cmds: Seq<RenderCommand>) -> Seq<CommandView> {
    cmds.map_values(|c: RenderCommand| c.view_cmd())
}

/// How a command changes the depth of open groups.
pub open spec fn stack_delta(c: CommandView) -> int {
    match c {
        CommandView::Plain(RenderCommand::PushClip { .. }) => 1,
        CommandView::Plain(RenderCommand::PushOpacity { .. }) => 1,
        CommandView::Plain(RenderCommand::PopClip) => -1,
        CommandView::Plain(RenderCommand::PopOpacity) => -1,
        _ => 0,
    }
}

/// Depth of open groups after a run of commands.
pub open spec fn depth(cmds: Seq<CommandView>) -> int
    decreases cmds.len(),
{
    if cmds.len() == 0 {
        0
    } else {
        depth(cmds.drop_last()) + stack_delta(cmds.last())
    }
}

/// Every prefix leaves a non-negative depth, and the whole run leaves none.
pub open spec fn balanced(cmds: Seq<CommandView>) -> bool {
    &&& forall|n: int| 0 <= n <= cmds.len() ==> depth(#[trigger] cmds.take(n)) >= 0
    &&& depth(cmds) == 0
}

/// A node after layout: its offset within its parent and its size (in
/// thousandths of a pixel), its paint data, the lines of its text (for a
/// text node), and its children in paint order.
#[derive(Debug)]
pub struct PlacedNode {
    pub x: i64,
    pub y: i64,
    pub width: i64,
    pub height: i64,
    pub data: NodeData,
    pub text_lines: Vec<TextLine>,
    pub children: Vec<PlacedNode>,
}

pub open spec fn ext_radii(r: [i64; 4]) -> [i64; 4] {
    [ext(r[0] as int) as i64, ext(r[1] as int) as i64, ext(r[2] as int) as i64, ext(r[3] as int) as i64]
}

/// The lines of a text run: line `k` is drawn at the running offset plus its
/// baseline, and the offset then grows by the line's ascent and descent.
pub open spec fn line_renders(lines: Seq<TextLine>, x: int, y: int, content: String) -> Seq<TextLineRender>
    decreases lines.len(),
{
    if lines.len() == 0 {
        Seq::empty()
    } else {
        let l = lines[0];
        seq![TextLineRender { x: x as i64, y: ext(y + ext(l.baseline as int)) as i64, text: content }]
            + line_renders(
            lines.drop_first(),
            x,
            ext(y + ext(l.ascent as int) + ext(l.descent as int)),
            content,
        )
    }
}

/// The text-run command of a text node drawn at `(x, y)`.
pub open spec fn text_view(lines: Seq<TextLine>, x: int, y: int, content: String, style: TextStyleResolved) -> CommandView {
    CommandView::Text {
        x,
        y: ext(y + ext(if lines.len() > 0 { lines[0].baseline as int } else { style.font_size as int })),
        content,
        font_family: style.font_family,
        font_size: style.font_size as int,
        font_weight: style.font_weight,
        color: style.color,
        lines: line_renders(lines, x, y, content),
    }
}

/// What a node paints under its children: background, then border.
pub open spec fn paint_commands(data: NodeData, rect: Rect) -> Seq<CommandView> {
    let v = data.visual;
    let radii = ext_radii(v.border_radius);
    (match v.background_color {
        Some(c) => if c.a > 0 {
            seq![CommandView::Plain(RenderCommand::FillRect { rect, color: c, border_radius: radii })]
        } else {
            Seq::empty()
        },
        None => Seq::empty(),
    }) + (if v.border_width > 0 {
        match v.border_color {
            Some(c) => if c.a > 0 {
                seq![
                    CommandView::Plain(
                        RenderCommand::StrokeRect {
                            rect,
                            color: c,
                            width: ext(v.border_width as int) as i64,
                            border_radius: radii,
                        },
                    ),
                ]
            } else {
                Seq::empty()
            },
            None => Seq::empty(),
        }
    } else {
        Seq::empty()
    })
}

/// The commands of a node whose parent is at `(px, py)`, in paint order:
/// an opacity group when the node is translucent, its background and
/// border, then its children, its text or its image.
pub open spec fn node_commands(n: PlacedNode, px: int, py: int) -> Seq<CommandView>
    decreases n, 1int,
{
    let x = ext(px + n.x);
    let y = ext(py + n.y);
    let rect = Rect { x: x as i64, y: y as i64, width: ext(n.width as int) as i64, height: ext(n.height as int) as i64 };
    let v = n.data.visual;
    let translucent = v.opacity < 1000;
    let body = node_commands_body(n, x, y, rect);
    (if translucent {
        seq![CommandView::Plain(RenderCommand::PushOpacity { opacity: v.opacity })]
    } else {
        Seq::empty()
    }) + paint_commands(n.data, rect) + body + (if translucent {
        seq![CommandView::Plain(RenderCommand::PopOpacity)]
    } else {
        Seq::empty()
    })
}

/// What a node draws above its own paint: its children, its text or its image.
pub open spec fn node_commands_body(n: PlacedNode, x: int, y: int, rect: Rect) -> Seq<CommandView>
    decreases n, 0int,
{
    match n.data.element_type {
        ElementType::Text { content, style } => seq![text_view(n.text_lines@, x, y, content, style)],
        ElementType::Image { src } => seq![
            CommandView::Plain(
                RenderCommand::Image { rect, src, border_radius: ext_radii(n.data.visual.border_radius) },
            ),
        ],
        _ => children_commands(n.children@, x, y),
    }
}

/// The commands of a run of sibling nodes, one after another.
pub open spec fn children_commands(cs: Seq<PlacedNode>, px: int, py: int) -> Seq<CommandView>
    decreases cs, 2int,
{
    if cs.len() == 0 {
        Seq::empty()
    } else {
        children_commands(cs.drop_last(), px, py) + node_commands(cs.last(), px, py)
    }
}

/// `a + b` limited to the extent.
fn ext_sum(a: i64, b: i64) -> (r: i64)
    ensures
        r == ext(a + b),
{
    let s = a as i128 + b as i128;
    if s < -(MAX_EXTENT as i128) {
        -MAX_EXTENT
    } else if s > MAX_EXTENT as i128 {
        MAX_EXTENT
    } else {
        s as i64
    }
}

/// `a + b + c` limited to the extent.
fn ext_sum3(a: i64, b: i64, c: i64) -> (r: i64)
    ensures
        r == ext(a + b + c),
{
    let s = a as i128 + b as i128 + c as i128;
    if s < -(MAX_EXTENT as i128) {
        -MAX_EXTENT
    } else if s > MAX_EXTENT as i128 {
        MAX_EXTENT
    } else {
        s as i64
    }
}

fn ext_of(v: i64) -> (r: i64)
    ensures
        r == ext(v as int),
{
    ext_sum(v, 0)
}

fn ext_radii_of(r: &[i64; 4]) -> (e: [i64; 4])
    ensures
        e == ext_radii(*r),
{
    let e = [ext_of(r[0]), ext_of(r[1]), ext_of(r[2]), ext_of(r[3])];
    assert(e =~= ext_radii(*r));
    e
}

fn push_cmd(commands: &mut Vec<RenderCommand>, c: RenderCommand)
    ensures
        views(final(commands)@) == views(old(commands)@).push(c.view_cmd()),
{
    commands.push(c);
    assert(views(commands@) =~= views(old(commands)@).push(c.view_cmd()));
}

fn paint_node(data: &NodeData, rect: Rect, commands: &mut Vec<RenderCommand>)
    ensures
        views(final(commands)@) == views(old(commands)@) + paint_commands(*data, rect),
{
    let ghost start = views(commands@);
    let visual: &VisualStyle = &data.visual;
    let radii = ext_radii_of(&visual.border_radius);
    match visual.background_color {
        Some(c) => {
            if c.a > 0 {
                push_cmd(commands, RenderCommand::FillRect { rect, color: c, border_radius: radii });
            }
        },
        None => {},
    }
    if visual.border_width > 0 {
        match visual.border_color {
            Some(c) => {
                if c.a > 0 {
                    let w = ext_of(visual.border_width);
                    push_cmd(
                        commands,
                        RenderCommand::StrokeRect { rect, color: c, width: w, border_radius: radii },
                    );
                }
            },
            None => {},
        }
    }
    assert(views(commands@) =~= start + paint_commands(*data, rect));
}

/// The lines of a text run for `lines` drawn at `(x, y)`.
fn text_line_renders(lines: &Vec<TextLine>, x: i64, y: i64, content: &String) -> (r: Vec<TextLineRender>)
    requires
        in_extent(y as int),
    ensures
        r@ == line_renders(lines@, x as int, y as int, *content),
{
    let mut out: Vec<TextLineRender> = Vec::new();
    let mut cur = y;
    assert(lines@.skip(0) =~= lines@);
    assert(out@ + line_renders(lines@, x as int, y as int, *content) =~= line_renders(
        lines@,
        x as int,
        y as int,
        *content,
    ));
    let mut i: usize = 0;
    while i < lines.len()
        invariant
            i <= lines.len(),
            in_extent(cur as int),
            out@ + line_renders(lines@.skip(i as int), x as int, cur as int, *content)
                == line_renders(lines@, x as int, y as int, *content),
        decreases lines.len() - i,
    {
        let line = &lines[i];
        let ghost rest = lines@.skip(i as int);
        assert(rest.drop_first() =~= lines@.skip(i + 1));
        assert(rest[0] == *line);
        let ly = ext_sum(cur, ext_of(line.baseline));
        let item = TextLineRender { x, y: ly, text: content.clone() };
        let next = ext_sum3(cur, ext_of(line.ascent), ext_of(line.descent));
        proof {
            assert(line_renders(rest, x as int, cur as int, *content) == seq![item] + line_renders(
                lines@.skip(i + 1),
                x as int,
                next as int,
                *content,
            ));
        }
        let ghost before = out@;
        out.push(item);
        assert(out@ + line_renders(lines@.skip(i + 1), x as int, next as int, *content) =~= before
            + (seq![item] + line_renders(lines@.skip(i + 1), x as int, next as int, *content)));
        cur = next;
        i = i + 1;
    }
    assert(lines@.skip(lines.len() as int) =~= Seq::<TextLine>::empty());
    assert(out@ + Seq::<TextLineRender>::empty() =~= out@);
    out
}
/// Appends the commands of `node`, whose parent is at `(parent_x,
/// parent_y)`, and of its subtree.
pub fn render_node(node: &PlacedNode, parent_x: i64, parent_y: i64, commands: &mut Vec<RenderCommand>)
    ensures
        views(final(commands)@) == views(old(commands)@) + node_commands(
            *node,
            parent_x as int,
            parent_y as int,
        ),
    decreases node,
{
    let ghost start = views(commands@);
    let x = ext_sum(parent_x, node.x);
    let y = ext_sum(parent_y, node.y);
    let rect = Rect { x, y, width: ext_of(node.width), height: ext_of(node.height) };
    let visual = &node.data.visual;
    let translucent = visual.opacity < 1000;
    if translucent {
        push_cmd(commands, RenderCommand::PushOpacity { opacity: visual.opacity });
    }
    paint_node(&node.data, rect, commands);
    let ghost before_body = views(commands@);
    match &node.data.element_type {
        ElementType::Text { content, style } => {
            let lines = text_line_renders(&node.text_lines, x, y, content);
            let first = if node.text_lines.len() > 0 {
                node.text_lines[0].baseline
            } else {
                style.font_size
            };
            let c = RenderCommand::Text {
                x,
                y: ext_sum(y, ext_of(first)),
                content: content.clone(),
                font_family: style.font_family.clone(),
                font_size: style.font_size,
                font_weight: style.font_weight,
                color: style.color,
                lines,
            };
            assert(c.view_cmd() == text_view(node.text_lines@, x as int, y as int, *content, *style));
            push_cmd(commands, c);
            assert(views(commands@) == before_body + node_commands_body(*node, x as int, y as int, rect));
        },
        ElementType::Image { src } => {
            let radii = ext_radii_of(&visual.border_radius);
            push_cmd(commands, RenderCommand::Image { rect, src: src.clone(), border_radius: radii });
            assert(views(commands@) == before_body + node_commands_body(*node, x as int, y as int, rect));
        },
        _ => {
            let mut i: usize = 0;
            while i < node.children.len()
                invariant
                    i <= node.children.len(),
                    views(commands@) == before_body + children_commands(
                        node.children@.take(i as int),
                        x as int,
                        y as int,
                    ),
                decreases node.children.len() - i,
            {
                let ghost prev = node.children@.take(i as int);
                assert(node.children@.take(i + 1).drop_last() =~= prev);
                render_node(&node.children[i], x, y, commands);
                assert(views(commands@) == before_body + children_commands(
                    node.children@.take(i + 1),
                    x as int,
                    y as int,
                ));
                i = i + 1;
            }
            assert(node.children@.take(node.children.len() as int) =~= node.children@);
            assert(views(commands@) == before_body + node_commands_body(*node, x as int, y as int, rect));
        },
    }
    if translucent {
        push_cmd(commands, RenderCommand::PopOpacity);
    }
    assert(views(commands@) =~= start + node_commands(*node, parent_x as int, parent_y as int));
}

proof fn lemma_depth_concat(a: Seq<CommandView>, b: Seq<CommandView>)
    ensures
        depth(a + b) == depth(a) + depth(b),
    decreases b.len(),
{
    if b.len() == 0 {
        assert(a + b =~= a);
    } else {
        assert((a + b).drop_last() =~= a + b.drop_last());
        lemma_depth_concat(a, b.drop_last());
    }
}

proof fn lemma_balanced_concat(a: Seq<CommandView>, b: Seq<CommandView>)
    requires
        balanced(a),
        balanced(b),
    ensures
        balanced(a + b),
{
    lemma_depth_concat(a, b);
    assert forall|n: int| 0 <= n <= (a + b).len() implies depth(#[trigger] (a + b).take(n)) >= 0 by {
        if n <= a.len() {
            assert((a + b).take(n) =~= a.take(n));
        } else {
            assert((a + b).take(n) =~= a + b.take(n - a.len()));
            assert(a.take(a.len() as int) =~= a);
            lemma_depth_concat(a, b.take(n - a.len()));
        }
    }
}

/// A run without group markers.
pub open spec fn flat(cmds: Seq<CommandView>) -> bool {
    forall|i: int| 0 <= i < cmds.len() ==> stack_delta(#[trigger] cmds[i]) == 0
}

proof fn lemma_flat_depth(cmds: Seq<CommandView>)
    requires
        flat(cmds),
    ensures
        depth(cmds) == 0,
    decreases cmds.len(),
{
    if cmds.len() > 0 {
        lemma_flat_depth(cmds.drop_last());
        assert(stack_delta(cmds[cmds.len() - 1]) == 0);
    }
}

proof fn lemma_flat_balanced(cmds: Seq<CommandView>)
    requires
        flat(cmds),
    ensures
        balanced(cmds),
{
    lemma_flat_depth(cmds);
    assert forall|n: int| 0 <= n <= cmds.len() implies depth(#[trigger] cmds.take(n)) >= 0 by {
        lemma_flat_depth(cmds.take(n));
    }
}

proof fn lemma_group_balanced(open: CommandView, body: Seq<CommandView>, close: CommandView)
    requires
        stack_delta(open) == 1,
        stack_delta(close) == -1,
        balanced(body),
    ensures
        balanced(seq![open] + body + seq![close]),
{
    let s = seq![open] + body + seq![close];
    lemma_depth_concat(seq![open], body);
    lemma_depth_concat(seq![open] + body, seq![close]);
    assert(depth(seq![open]) == 1) by {
        assert(seq![open].drop_last() =~= Seq::<CommandView>::empty());
        assert(depth(Seq::<CommandView>::empty()) == 0);
        assert(seq![open].last() == open);
    }
    assert(depth(seq![close]) == -1) by {
        assert(seq![close].drop_last() =~= Seq::<CommandView>::empty());
        assert(depth(Seq::<CommandView>::empty()) == 0);
        assert(seq![close].last() == close);
    }
    assert forall|n: int| 0 <= n <= s.len() implies depth(#[trigger] s.take(n)) >= 0 by {
        if n == 0 {
            assert(s.take(0) =~= Seq::<CommandView>::empty());
        } else if n <= body.len() + 1 {
            assert(s.take(n) =~= seq![open] + body.take(n - 1));
            lemma_depth_concat(seq![open], body.take(n - 1));
        } else {
            assert(s.take(n) =~= s);
        }
    }
}

proof fn lemma_paint_flat(data: NodeData, rect: Rect)
    ensures
        flat(paint_commands(data, rect)),
{
}

/// The commands of any node form balanced groups.
pub proof fn lemma_node_balanced(n: PlacedNode, px: int, py: int)
    ensures
        balanced(node_commands(n, px, py)),
    decreases n, 1int,
{
    let x = ext(px + n.x);
    let y = ext(py + n.y);
    let rect = Rect { x: x as i64, y: y as i64, width: ext(n.width as int) as i64, height: ext(n.height as int) as i64 };
    let body = node_commands_body(n, x, y, rect);
    let paint = paint_commands(n.data, rect);
    lemma_paint_flat(n.data, rect);
    lemma_flat_balanced(paint);
    match n.data.element_type {
        ElementType::Text { .. } => {
            lemma_flat_balanced(body);
        },
        ElementType::Image { .. } => {
            lemma_flat_balanced(body);
        },
        _ => {
            lemma_children_balanced(n.children@, x, y);
        },
    }
    lemma_balanced_concat(paint, body);
    let inner = paint + body;
    if n.data.visual.opacity < 1000 {
        lemma_group_balanced(
            CommandView::Plain(RenderCommand::PushOpacity { opacity: n.data.visual.opacity }),
            inner,
            CommandView::Plain(RenderCommand::PopOpacity),
        );
        assert(node_commands(n, px, py) =~= seq![
            CommandView::Plain(RenderCommand::PushOpacity { opacity: n.data.visual.opacity }),
        ] + inner + seq![CommandView::Plain(RenderCommand::PopOpacity)]);
    } else {
        assert(node_commands(n, px, py) =~= inner);
    }
}

/// The commands of any run of siblings form balanced groups.
pub proof fn lemma_children_balanced(cs: Seq<PlacedNode>, px: int, py: int)
    ensures
        balanced(children_commands(cs, px, py)),
    decreases cs, 2int,
{
    if cs.len() == 0 {
        lemma_flat_balanced(Seq::empty());
    } else {
        lemma_children_balanced(cs.drop_last(), px, py);
        lemma_node_balanced(cs.last(), px, py);
        lemma_balanced_concat(children_commands(cs.drop_last(), px, py), node_commands(cs.last(), px, py));
    }
}

/// A command whose geometry lies within the extent.
pub open spec fn view_wf(c: CommandView) -> bool {
    match c {
        CommandView::Plain(cmd) => cmd.wf(),
        CommandView::Text { .. } => true,
    }
}

pub open spec fn all_wf(cmds: Seq<CommandView>) -> bool {
    forall|i: int| 0 <= i < cmds.len() ==> view_wf(#[trigger] cmds[i])
}

proof fn lemma_all_wf_concat(a: Seq<CommandView>, b: Seq<CommandView>)
    requires
        all_wf(a),
        all_wf(b),
    ensures
        all_wf(a + b),
{
    assert forall|i: int| 0 <= i < (a + b).len() implies view_wf(#[trigger] (a + b)[i]) by {
        if i < a.len() {
            assert((a + b)[i] == a[i]);
        } else {
            assert((a + b)[i] == b[i - a.len()]);
        }
    }
}

proof fn lemma_ext_in_extent(v: int)
    ensures
        in_extent(ext(v)),
{
}

/// Every command of a node's stream has its geometry within the extent.
pub proof fn lemma_node_wf(n: PlacedNode, px: int, py: int)
    ensures
        all_wf(node_commands(n, px, py)),
    decreases n, 1int,
{
    let x = ext(px + n.x);
    let y = ext(py + n.y);
    let rect = Rect { x: x as i64, y: y as i64, width: ext(n.width as int) as i64, height: ext(n.height as int) as i64 };
    let body = node_commands_body(n, x, y, rect);
    let paint = paint_commands(n.data, rect);
    let r = n.data.visual.border_radius;
    lemma_ext_in_extent(r[0] as int);
    lemma_ext_in_extent(r[1] as int);
    lemma_ext_in_extent(r[2] as int);
    lemma_ext_in_extent(r[3] as int);
    assert(rect.wf());
    assert(radii_wf(ext_radii(r)));
    assert(all_wf(paint));
    match n.data.element_type {
        ElementType::Text { .. } => {},
        ElementType::Image { .. } => {},
        _ => {
            lemma_children_wf(n.children@, x, y);
        },
    }
    assert(all_wf(body));
    lemma_all_wf_concat(paint, body);
    let inner = paint + body;
    if n.data.visual.opacity < 1000 {
        let open = seq![CommandView::Plain(RenderCommand::PushOpacity { opacity: n.data.visual.opacity })];
        let close = seq![CommandView::Plain(RenderCommand::PopOpacity)];
        lemma_all_wf_concat(open, inner);
        lemma_all_wf_concat(open + inner, close);
        assert(node_commands(n, px, py) =~= open + inner + close);
    } else {
        assert(node_commands(n, px, py) =~= inner);
    }
}

proof fn lemma_children_wf(cs: Seq<PlacedNode>, px: int, py: int)
    ensures
        all_wf(children_commands(cs, px, py)),
    decreases cs, 2int,
{
    if cs.len() > 0 {
        lemma_children_wf(cs.drop_last(), px, py);
        lemma_node_wf(cs.last(), px, py);
        lemma_all_wf_concat(children_commands(cs.drop_last(), px, py), node_commands(cs.last(), px, py));
    }
}

/// Flattens a laid-out tree into its command stream; the canvas takes the
/// root's size.
pub fn build_render_tree(root: &PlacedNode) -> (r: RenderTree)
    ensures
        views(r.commands@) == node_commands(*root, 0, 0),
        r.width == ext(root.width as int),
        r.height == ext(root.height as int),
        r.wf(),
        balanced(views(r.commands@)),
{
    let mut commands: Vec<RenderCommand> = Vec::new();
    assert(views(commands@) =~= Seq::<CommandView>::empty());
    render_node(root, 0, 0, &mut commands);
    assert(views(commands@) =~= node_commands(*root, 0, 0));
    proof {
        lemma_node_balanced(*root, 0, 0);
        lemma_node_wf(*root, 0, 0);
        assert forall|i: int| 0 <= i < commands@.len() implies (#[trigger] commands@[i]).wf() by {
            assert(views(commands@)[i] == commands@[i].view_cmd());
            assert(view_wf(views(commands@)[i]));
        }
    }
    RenderTree { commands, width: ext_of(root.width), height: ext_of(root.height) }
}

} // verus!
