use htvg::color::Color;
use htvg::layout::{ElementType, NodeData, TextStyleResolved, VisualStyle};
use htvg::render::{build_render_tree, PlacedNode, RenderCommand};
use htvg::render_document;
use htvg::style::{TextAlign, TextRendering};
use htvg::text::TextLine;

fn visual(bg: Option<Color>, opacity: i64) -> VisualStyle {
    VisualStyle { background_color: bg, border_width: 0, border_color: None, border_radius: [0; 4], opacity }
}

fn leaf_box(x: i64, y: i64, w: i64, h: i64, bg: Option<Color>, opacity: i64) -> PlacedNode {
    PlacedNode {
        x,
        y,
        width: w,
        height: h,
        data: NodeData { element_type: ElementType::Box, visual: visual(bg, opacity) },
        text_lines: vec![],
        children: vec![],
    }
}

fn text_node(x: i64, y: i64, content: &str) -> PlacedNode {
    PlacedNode {
        x,
        y,
        width: 100_000,
        height: 20_000,
        data: NodeData {
            element_type: ElementType::Text {
                content: content.to_string(),
                style: TextStyleResolved {
                    font_family: "sans-serif".to_string(),
                    font_size: 16_000,
                    font_weight: 400,
                    line_height: 1_200,
                    text_align: TextAlign::Left,
                    color: Color { r: 0, g: 0, b: 0, a: 255 },
                    letter_spacing: 0,
                    text_rendering: TextRendering::Text,
                },
            },
            visual: visual(None, 1000),
        },
        text_lines: vec![TextLine {
            text: content.to_string(),
            baseline: 12_800,
            ascent: 12_800,
            descent: 3_200,
            glyphs: vec![],
        }],
        children: vec![],
    }
}

fn depth_ok(cmds: &[RenderCommand]) -> bool {
    let mut d: i64 = 0;
    for c in cmds {
        match c {
            RenderCommand::PushClip { .. } | RenderCommand::PushOpacity { .. } => d += 1,
            RenderCommand::PopClip | RenderCommand::PopOpacity => d -= 1,
            _ => {}
        }
        if d < 0 {
            return false;
        }
    }
    d == 0
}

#[test]
fn red_box_end_to_end() {
    let root = leaf_box(0, 0, 200_000, 100_000, Some(Color { r: 255, g: 0, b: 0, a: 255 }), 1000);
    let result = render_document(&root);
    assert!(result.svg.contains("width=\"200.00\" height=\"100.00\""));
    assert!(result.svg.contains("<rect"));
    assert!(result.svg.contains("fill=\"#ff0000\""));
    assert!(result.svg.ends_with("</svg>"));
    assert_eq!((result.width, result.height), (200_000, 100_000));
    assert!(result.warnings.is_empty());
}

#[test]
fn children_are_offset_and_painted_after_parent() {
    let mut root = leaf_box(0, 0, 300_000, 300_000, Some(Color { r: 1, g: 1, b: 1, a: 255 }), 1000);
    let mut mid = leaf_box(10_000, 20_000, 100_000, 100_000, None, 500);
    mid.children.push(leaf_box(5_000, 5_000, 10_000, 10_000, Some(Color { r: 2, g: 2, b: 2, a: 255 }), 1000));
    root.children.push(mid);
    root.children.push(text_node(0, 150_000, "Hi & bye"));
    let tree = build_render_tree(&root);
    assert!(depth_ok(&tree.commands));
    assert_eq!(tree.commands.len(), 5);
    match &tree.commands[0] {
        RenderCommand::FillRect { rect, .. } => assert_eq!((rect.x, rect.y), (0, 0)),
        _ => panic!("expected the root background first"),
    }
    assert!(matches!(tree.commands[1], RenderCommand::PushOpacity { opacity: 500 }));
    match &tree.commands[2] {
        RenderCommand::FillRect { rect, .. } => assert_eq!((rect.x, rect.y), (15_000, 25_000)),
        _ => panic!("expected the grandchild background"),
    }
    assert!(matches!(tree.commands[3], RenderCommand::PopOpacity));
    match &tree.commands[4] {
        RenderCommand::Text { y, lines, .. } => {
            assert_eq!(*y, 162_800);
            assert_eq!(lines.len(), 1);
            assert_eq!(lines[0].y, 162_800);
        }
        _ => panic!("expected the text run last"),
    }
}

#[test]
fn flex_column_height_exceeds_padding_and_text() {
    // Two text rows inside padding 20 on every side, as the solver places them.
    let mut root = leaf_box(0, 0, 400_000, 40_000 + 2 * 19_200 + 1_000, None, 1000);
    root.data.element_type = ElementType::Flex;
    root.children.push(text_node(20_000, 20_000, "First"));
    root.children.push(text_node(20_000, 39_200, "Second"));
    let result = render_document(&root);
    assert!(result.height > 40_000 + 2 * 19_200);
    assert!(result.svg.contains(">First</text>"));
    assert!(result.svg.contains(">Second</text>"));
}

#[test]
fn coordinates_are_limited_to_the_extent() {
    let mut root = leaf_box(0, 0, i64::MAX, 10_000, Some(Color { r: 9, g: 9, b: 9, a: 255 }), 1000);
    root.children.push(leaf_box(i64::MAX, i64::MIN, 5_000, 5_000, Some(Color { r: 1, g: 2, b: 3, a: 255 }), 1000));
    let tree = build_render_tree(&root);
    assert_eq!(tree.width, htvg::render::MAX_EXTENT);
    match &tree.commands[1] {
        RenderCommand::FillRect { rect, .. } => {
            assert_eq!(rect.x, htvg::render::MAX_EXTENT);
            assert_eq!(rect.y, -htvg::render::MAX_EXTENT);
        }
        _ => panic!("expected the child background"),
    }
    let svg = render_document(&root).svg;
    assert!(svg.contains("width=\"1000000000.00\""));
}
