use htvg::{default_font_size, default_font_weight, font_payloads, CompileError, CompileOptions, FontSource};

fn font(data: Option<&str>) -> FontSource {
    FontSource { family: "F".to_string(), url: None, weight: default_font_weight(), data: data.map(|d| d.to_string()) }
}

#[test]
fn decodes_font_payloads_in_order() {
    let mut opts = CompileOptions::default();
    opts.fonts = vec![font(Some("aGk=")), font(None), font(Some("AAEC"))];
    let out = font_payloads(&opts).unwrap();
    assert_eq!(out, vec![b"hi".to_vec(), vec![0u8, 1, 2]]);
}

#[test]
fn invalid_payload_is_font_error() {
    let mut opts = CompileOptions::default();
    opts.fonts = vec![font(Some("@@@@"))];
    let err = font_payloads(&opts).unwrap_err();
    assert_eq!(err.kind, "font_error");
    assert!(err.message.starts_with("Invalid base64 font data: "));
}

#[test]
fn defaults_and_errors() {
    let opts = CompileOptions::default();
    assert_eq!(opts.width, 800_000);
    assert_eq!(opts.font_size, default_font_size());
    let e = CompileError::parse_error("bad".to_string());
    assert_eq!(e.kind, "parse_error");
    assert_eq!(e.to_string(), "parse_error: bad");
}

#[test]
fn layout_and_font_error_kinds() {
    assert_eq!(CompileError::layout_error("x".to_string()).kind, "layout_error");
    assert_eq!(CompileError::font_error("y".to_string()).kind, "font_error");
}
