use htvg::layout::{measure_step, settle_text_size, AvailableSpace, MeasureStep, NodeContext, TextContext};
use htvg::text::{fallback_layout, fallback_measure, settle_text_layout, word_wrap, TextLayoutResult};

#[test]
fn wrap_greedy_lines() {
    // 10px font: each character is 5.5px wide; "aa bb cc" is 44px.
    let lines = word_wrap("aa bb cc", 10_000, Some(40_000));
    assert_eq!(lines, vec!["aa bb".to_string(), "cc".to_string()]);
    let lines = word_wrap("aa bb cc", 10_000, None);
    assert_eq!(lines, vec!["aa bb cc".to_string()]);
}

#[test]
fn wrap_keeps_long_word_whole() {
    let lines = word_wrap("a verylongword b", 10_000, Some(30_000));
    assert_eq!(lines, vec!["a".to_string(), "verylongword".to_string(), "b".to_string()]);
    for l in &lines {
        let w = l.chars().count() as i64 * 5_500;
        assert!(w <= 30_000 || !l.contains(' '));
    }
}

#[test]
fn wrap_empty_text_gives_one_empty_line() {
    assert_eq!(word_wrap("   ", 10_000, Some(5_000)), vec![String::new()]);
}

#[test]
fn fallback_measure_values() {
    // "aa bb cc" at 10px wrapping at 40px: widest line "aa bb" is 27.5px, two rows of 12px.
    assert_eq!(fallback_measure("aa bb cc", 10_000, 1_200, Some(40_000)), (27_500, 24_000));
    assert_eq!(fallback_measure("abcdefghij", 10_000, 1_200, Some(20_000)), (20_000, 12_000));
}

#[test]
fn fallback_layout_baselines() {
    let r = fallback_layout("aa bb cc", 10_000, 1_500, 40_000);
    assert_eq!(r.lines.len(), 2);
    assert_eq!(r.lines[0].baseline, 8_000);
    assert_eq!(r.lines[1].baseline, 23_000);
    assert_eq!(r.lines[1].descent, 2_000);
    assert_eq!(r.height, 30_000);
}

#[test]
fn measure_steps() {
    let ctx = Some(NodeContext::Text(TextContext { content: "hi".to_string(), ..TextContext::default() }));
    assert_eq!(
        measure_step(Some(5), Some(6), AvailableSpace::MaxContent, &ctx),
        MeasureStep::Size { width: 5, height: 6 }
    );
    assert_eq!(
        measure_step(Some(5), None, AvailableSpace::Definite(90_000), &ctx),
        MeasureStep::ShapeText { max_width: Some(90_000) }
    );
    assert_eq!(
        measure_step(None, None, AvailableSpace::MinContent, &ctx),
        MeasureStep::ShapeText { max_width: Some(0) }
    );
    assert_eq!(
        measure_step(None, None, AvailableSpace::MaxContent, &ctx),
        MeasureStep::ShapeText { max_width: None }
    );
    let empty = Some(NodeContext::Text(TextContext::default()));
    assert_eq!(
        measure_step(None, None, AvailableSpace::MaxContent, &empty),
        MeasureStep::Size { width: 0, height: 19_200 }
    );
    let img = Some(NodeContext::Image { width: 30_000, height: 40_000 });
    assert_eq!(
        measure_step(Some(10_000), None, AvailableSpace::MaxContent, &img),
        MeasureStep::Size { width: 10_000, height: 40_000 }
    );
    assert_eq!(measure_step(None, None, AvailableSpace::MaxContent, &None), MeasureStep::Size { width: 0, height: 0 });
}

#[test]
fn zero_area_shaping_falls_back() {
    assert_eq!(settle_text_size("aa bb", 10_000, None, 0, 0), (27_500, 12_000));
    assert_eq!(settle_text_size("aa bb", 10_000, None, 7, 9), (7, 9));
    let shaped = TextLayoutResult { width: 0, height: 0, lines: vec![] };
    let r = settle_text_layout("aa bb cc", 10_000, 1_200, 40_000, shaped);
    assert_eq!(r.lines.len(), 2);
    assert_eq!(r.lines[0].text, "aa bb");
}

#[test]
fn empty_text_layout_is_one_row() {
    let shaped = TextLayoutResult { width: 5, height: 5, lines: vec![] };
    let r = settle_text_layout("", 10_000, 1_500, 40_000, shaped);
    assert_eq!((r.width, r.height, r.lines.len()), (0, 15_000, 0));
}

#[test]
fn wrap_negative_width_puts_each_word_alone() {
    let lines = word_wrap("ab  cd\tef", 10_000, Some(-5));
    assert_eq!(lines, vec!["ab".to_string(), "cd".to_string(), "ef".to_string()]);
    let joined = word_wrap("ab  cd\tef", 10_000, None);
    assert_eq!(joined, vec!["ab cd ef".to_string()]);
}
