use htvg::color::Color;

#[test]
fn test_parse_color() {
    assert_eq!(Color::parse("#fff").unwrap().r, 255);
    assert_eq!(Color::parse("#000000").unwrap().r, 0);
    assert_eq!(Color::parse("rgb(255, 0, 0)").unwrap().r, 255);
    assert_eq!(Color::parse("rgba(0, 0, 255, 0.5)").unwrap().a, 127);
}

#[test]
fn parse_hex_forms() {
    assert_eq!(Color::parse("#1a2B3c"), Some(Color { r: 0x1a, g: 0x2b, b: 0x3c, a: 255 }));
    assert_eq!(Color::parse("#10203040"), Some(Color { r: 0x10, g: 0x20, b: 0x30, a: 0x40 }));
    assert_eq!(Color::parse("#abc"), Some(Color { r: 0xaa, g: 0xbb, b: 0xcc, a: 255 }));
    assert_eq!(Color::parse("  #fff  "), Some(Color { r: 255, g: 255, b: 255, a: 255 }));
    assert_eq!(Color::parse("#ff"), None);
    assert_eq!(Color::parse("#ggg"), None);
    assert_eq!(Color::parse("#+f0000"), None);
}

#[test]
fn parse_named_colors_in_any_case() {
    assert_eq!(Color::parse("Red"), Some(Color { r: 255, g: 0, b: 0, a: 255 }));
    assert_eq!(Color::parse("GREEN"), Some(Color { r: 0, g: 128, b: 0, a: 255 }));
    assert_eq!(Color::parse("transparent"), Some(Color { r: 0, g: 0, b: 0, a: 0 }));
    assert_eq!(Color::parse("White"), Some(Color { r: 255, g: 255, b: 255, a: 255 }));
    assert_eq!(Color::parse("purple"), None);
}

#[test]
fn parse_functional_forms() {
    assert_eq!(Color::parse("rgb(1,2,3)"), Some(Color { r: 1, g: 2, b: 3, a: 255 }));
    assert_eq!(Color::parse("rgba(10, 20, 30, 1)"), Some(Color { r: 10, g: 20, b: 30, a: 255 }));
    assert_eq!(Color::parse("rgba(10, 20, 30, 0)"), Some(Color { r: 10, g: 20, b: 30, a: 0 }));
    assert_eq!(Color::parse("rgb(256, 0, 0)"), None);
    assert_eq!(Color::parse("rgb(a, 0, 0)"), None);
    assert_eq!(Color::parse("rgb(1, 2)"), None);
    assert_eq!(Color::parse("rgb(+1, 2, 3)"), None);
}

#[test]
fn css_text_forms() {
    assert_eq!(Color { r: 255, g: 0, b: 16, a: 255 }.to_css(), "#ff0010");
    assert_eq!(Color { r: 1, g: 2, b: 3, a: 0 }.to_css(), "none");
    assert_eq!(Color { r: 1, g: 2, b: 3, a: 128 }.to_css(), "rgba(1,2,3,0.502)");
    assert_eq!(Color { r: 0, g: 0, b: 0, a: 1 }.to_css(), "rgba(0,0,0,0.004)");
}

#[test]
fn css_text_round_trips() {
    for a in 1..255u8 {
        let c = Color { r: 12, g: 200, b: 7, a };
        let back = Color::parse(&c.to_css()).unwrap();
        assert_eq!((back.r, back.g, back.b), (12, 200, 7));
        assert!(back.a == a || back.a + 1 == a);
    }
}
