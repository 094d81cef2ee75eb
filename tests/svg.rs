use htvg::color::Color;
use htvg::render::{Rect, RenderCommand, RenderTree, TextLineRender};
use htvg::strings::escape_xml;
use htvg::svg::{all_same, generate_svg, rounded_rect_path, SvgBuilder, SvgOptions};

fn red() -> Color {
    Color { r: 255, g: 0, b: 0, a: 255 }
}

fn rect() -> Rect {
    Rect { x: 10_000, y: 20_000, width: 100_000, height: 50_000 }
}

fn body(commands: Vec<RenderCommand>) -> String {
    let tree = RenderTree { commands, width: 200_000, height: 100_000 };
    let opts = SvgOptions { xml_declaration: false, pretty: false, precision: 2 };
    let svg = generate_svg(&tree, &opts);
    let start = svg.find('>').unwrap() + 1;
    svg[start..svg.len() - "</svg>".len()].to_string()
}

#[test]
fn test_escape_xml() {
    assert_eq!(escape_xml("<test>"), "&lt;test&gt;");
    assert_eq!(escape_xml("a & b"), "a &amp; b");
}

#[test]
fn escape_quotes() {
    assert_eq!(escape_xml("\"x\" 'y'"), "&quot;x&quot; &apos;y&apos;");
}

#[test]
fn test_all_same() {
    assert!(all_same(&[5000, 5000, 5000, 5000]));
    assert!(!all_same(&[5000, 5000, 0, 5000]));
}

#[test]
fn fill_rect_plain_when_radii_zero() {
    let out = body(vec![RenderCommand::FillRect { rect: rect(), color: red(), border_radius: [0; 4] }]);
    assert_eq!(
        out,
        "<rect x=\"10.00\" y=\"20.00\" width=\"100.00\" height=\"50.00\" fill=\"#ff0000\"/>"
    );
}

#[test]
fn fill_rect_rx_when_radii_equal() {
    let out = body(vec![RenderCommand::FillRect { rect: rect(), color: red(), border_radius: [4000; 4] }]);
    assert_eq!(
        out,
        "<rect x=\"10.00\" y=\"20.00\" width=\"100.00\" height=\"50.00\" rx=\"4.00\" fill=\"#ff0000\"/>"
    );
}

#[test]
fn fill_rect_path_when_radii_differ() {
    let out = body(vec![RenderCommand::FillRect {
        rect: rect(),
        color: red(),
        border_radius: [8000, 8000, 0, 0],
    }]);
    assert!(out.starts_with("<path d=\"M 18.00,20.00 L 102.00,20.00 Q 110.00,20.00 110.00,28.00"));
    assert!(out.ends_with("Z\" fill=\"#ff0000\"/>"));
}

#[test]
fn transparent_fill_draws_nothing() {
    let clear = Color { r: 1, g: 2, b: 3, a: 0 };
    assert_eq!(body(vec![RenderCommand::FillRect { rect: rect(), color: clear, border_radius: [0; 4] }]), "");
}

#[test]
fn rounded_path_clamps_radii() {
    let r = Rect { x: 0, y: 0, width: 10_000, height: 4_000 };
    assert_eq!(
        rounded_rect_path(&r, &[9000, 0, 0, 0], 1),
        "M 2.0,0.0 L 10.0,0.0 Q 10.0,0.0 10.0,0.0 L 10.0,4.0 Q 10.0,4.0 10.0,4.0 L 0.0,4.0 Q 0.0,4.0 0.0,4.0 L 0.0,2.0 Q 0.0,0.0 2.0,0.0 Z"
    );
}

#[test]
fn stroke_is_inset_by_half_width() {
    let out = body(vec![RenderCommand::StrokeRect {
        rect: rect(),
        color: red(),
        width: 2_000,
        border_radius: [0; 4],
    }]);
    assert_eq!(
        out,
        "<rect x=\"11.00\" y=\"21.00\" width=\"98.00\" height=\"48.00\" fill=\"none\" stroke=\"#ff0000\" stroke-width=\"2.00\"/>"
    );
}

#[test]
fn clip_and_opacity_groups_nest() {
    let out = body(vec![
        RenderCommand::PushOpacity { opacity: 500 },
        RenderCommand::PushClip { rect: rect(), border_radius: [0; 4] },
        RenderCommand::PopClip,
        RenderCommand::PushClip { rect: rect(), border_radius: [0; 4] },
        RenderCommand::PopClip,
        RenderCommand::PopOpacity,
    ]);
    assert_eq!(
        out,
        "<g opacity=\"0.50\"><defs><clipPath id=\"clip-0\"><rect x=\"10.00\" y=\"20.00\" width=\"100.00\" height=\"50.00\"/></clipPath></defs><g clip-path=\"url(#clip-0)\"></g><defs><clipPath id=\"clip-1\"><rect x=\"10.00\" y=\"20.00\" width=\"100.00\" height=\"50.00\"/></clipPath></defs><g clip-path=\"url(#clip-1)\"></g></g>"
    );
}

#[test]
fn image_with_radius_is_clipped() {
    let out = body(vec![RenderCommand::Image {
        rect: rect(),
        src: "a&b.png".to_string(),
        border_radius: [3000; 4],
    }]);
    assert_eq!(
        out,
        "<defs><clipPath id=\"img-clip-0\"><rect x=\"10.00\" y=\"20.00\" width=\"100.00\" height=\"50.00\" rx=\"3.00\"/></clipPath></defs><image x=\"10.00\" y=\"20.00\" width=\"100.00\" height=\"50.00\" xlink:href=\"a&amp;b.png\" clip-path=\"url(#img-clip-0)\"/>"
    );
}

fn text_cmd(lines: Vec<TextLineRender>) -> RenderCommand {
    RenderCommand::Text {
        x: 0,
        y: 0,
        content: "a<b".to_string(),
        font_family: "Sans".to_string(),
        font_size: 12_500,
        font_weight: 700,
        color: Color { r: 0, g: 0, b: 0, a: 255 },
        lines,
    }
}

#[test]
fn text_one_line_and_many_lines() {
    let one = body(vec![text_cmd(vec![TextLineRender { x: 1_000, y: 2_000, text: "a<b".to_string() }])]);
    assert_eq!(
        one,
        "<text x=\"1.00\" y=\"2.00\" fill=\"#000000\" font-family=\"Sans\" font-size=\"12.50\" font-weight=\"700\">a&lt;b</text>"
    );
    let two = body(vec![text_cmd(vec![
        TextLineRender { x: 0, y: 10_000, text: "a".to_string() },
        TextLineRender { x: 0, y: 25_000, text: "b".to_string() },
    ])]);
    assert_eq!(
        two,
        "<text fill=\"#000000\" font-family=\"Sans\" font-size=\"12.50\" font-weight=\"700\"><tspan x=\"0.00\" y=\"10.00\">a</tspan><tspan x=\"0.00\" y=\"25.00\">b</tspan></text>"
    );
    assert_eq!(body(vec![text_cmd(vec![])]), "");
}

#[test]
fn document_header_and_precision() {
    let tree = RenderTree { commands: vec![], width: 200_000, height: 100_125 };
    let svg = generate_svg(&tree, &SvgOptions::default());
    assert_eq!(
        svg,
        "<?xml version=\"1.0\" encoding=\"UTF-8\"?>\n<svg xmlns=\"http://www.w3.org/2000/svg\" xmlns:xlink=\"http://www.w3.org/1999/xlink\" width=\"200.00\" height=\"100.12\" viewBox=\"0 0 200.00 100.12\"></svg>"
    );
    let mut b = SvgBuilder::new(1_500, -2_005, SvgOptions { xml_declaration: false, pretty: false, precision: 0 });
    b.pop_clip();
    assert_eq!(b.finish(), "<svg xmlns=\"http://www.w3.org/2000/svg\" xmlns:xlink=\"http://www.w3.org/1999/xlink\" width=\"2\" height=\"-2\" viewBox=\"0 0 2 -2\"></g></svg>");
}
