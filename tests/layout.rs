use htvg::color::Color;
use htvg::layout::{build_node, DisplayMode, ElementType, NodeContext, SizeValue};
use htvg::style::{
    BorderRadius, BoxStyle, Dimension, Element, FlexDirection, FlexStyle, FontWeight, ImageStyle, Spacing,
    TextStyle,
};

fn box_style() -> BoxStyle {
    BoxStyle {
        display: None,
        width: Some(Dimension::Px(200_000)),
        height: Some(Dimension::Percent("50%".to_string())),
        min_width: None,
        max_width: None,
        min_height: None,
        max_height: None,
        margin: Some(Spacing::Multi("1 2".to_string())),
        padding: Some(Spacing::Uniform(3_000)),
        background_color: Some(Color { r: 255, g: 0, b: 0, a: 255 }),
        border_width: Some(2_000),
        border_color: None,
        border_radius: Some(BorderRadius::Multi("4 5".to_string())),
        opacity: None,
    }
}

fn text_style() -> TextStyle {
    TextStyle {
        font_family: None,
        font_size: Some(24_000),
        font_weight: Some(FontWeight(700)),
        line_height: None,
        text_align: None,
        color: None,
        letter_spacing: None,
        text_rendering: None,
        flex_grow: Some(1_000),
        flex_shrink: None,
    }
}

#[test]
fn box_node_keeps_geometry_and_paint_apart() {
    let e = Element::Box { style: box_style(), children: vec![] };
    let n = build_node(&e, &None).unwrap();
    assert_eq!(n.style.display, DisplayMode::Block);
    assert_eq!(n.style.width, SizeValue::Length(200_000));
    assert_eq!(n.style.height, SizeValue::Percent(50_000));
    assert_eq!(n.style.margin, [1_000, 2_000, 1_000, 2_000]);
    assert_eq!(n.style.padding, [3_000; 4]);
    assert_eq!(n.style.border, [2_000; 4]);
    assert_eq!(n.data.visual.border_radius, [4_000, 5_000, 4_000, 5_000]);
    assert_eq!(n.data.visual.opacity, 1000);
    assert!(n.context.is_none());
}

#[test]
fn flex_tree_in_document_order() {
    let flex = FlexStyle {
        display: None,
        width: None,
        height: None,
        min_width: None,
        max_width: None,
        min_height: None,
        max_height: None,
        margin: None,
        padding: Some(Spacing::Uniform(20_000)),
        flex_direction: Some(FlexDirection::Column),
        justify_content: None,
        align_items: None,
        gap: None,
        flex_wrap: None,
        background_color: None,
        border_width: None,
        border_color: None,
        border_radius: None,
        opacity: Some(400),
    };
    let e = Element::Flex {
        style: flex,
        children: vec![
            Element::Text { content: "Hello".to_string(), style: text_style() },
            Element::Image {
                src: "p.png".to_string(),
                width: 30_000,
                height: 40_000,
                style: ImageStyle {
                    width: None,
                    height: Some(Dimension::Px(10_000)),
                    min_width: None,
                    max_width: None,
                    min_height: None,
                    max_height: None,
                    margin: None,
                    object_fit: None,
                    border_radius: None,
                    opacity: None,
                    flex_grow: None,
                    flex_shrink: None,
                },
            },
        ],
    };
    let n = build_node(&e, &Some("Inter".to_string())).unwrap();
    assert_eq!(n.style.display, DisplayMode::Flex);
    assert_eq!(n.style.flex_direction, FlexDirection::Column);
    assert_eq!(n.data.visual.opacity, 400);
    assert_eq!(n.children.len(), 2);
    let t = &n.children[0];
    assert_eq!(t.style.flex_grow, 1_000);
    assert_eq!(t.style.flex_shrink, 1_000);
    match &t.data.element_type {
        ElementType::Text { content, style } => {
            assert_eq!(content, "Hello");
            assert_eq!(style.font_family, "Inter");
            assert_eq!(style.font_size, 24_000);
            assert_eq!(style.font_weight, 700);
            assert_eq!(style.line_height, 1_200);
        }
        _ => panic!("expected a text node"),
    }
    match &t.context {
        Some(NodeContext::Text(c)) => assert_eq!(c.font_family, None),
        _ => panic!("expected a text context"),
    }
    let i = &n.children[1];
    assert_eq!(i.style.width, SizeValue::Length(30_000));
    assert_eq!(i.style.height, SizeValue::Length(10_000));
    assert_eq!(i.context, Some(NodeContext::Image { width: 30_000, height: 40_000 }));
}

#[test]
fn malformed_shorthand_is_parse_error() {
    let mut style = box_style();
    style.padding = Some(Spacing::Multi("10 abc".to_string()));
    let e = Element::Box { style, children: vec![] };
    let err = build_node(&e, &None).unwrap_err();
    assert_eq!(err.kind, "parse_error");

    let mut inner = box_style();
    inner.border_radius = Some(BorderRadius::Multi("4 four".to_string()));
    let e = Element::Box { style: box_style(), children: vec![Element::Box { style: inner, children: vec![] }] };
    assert_eq!(build_node(&e, &None).unwrap_err().kind, "parse_error");
}
