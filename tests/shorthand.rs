use htvg::style::{BorderRadius, Dimension, FontWeight, Spacing};

#[test]
fn test_spacing_edges() {
    assert_eq!(Spacing::Uniform(10000).to_edges().unwrap(), [10000, 10000, 10000, 10000]);
    assert_eq!(Spacing::Multi("10 20".to_string()).to_edges().unwrap(), [10000, 20000, 10000, 20000]);
    assert_eq!(
        Spacing::Multi("10 20 30 40".to_string()).to_edges().unwrap(),
        [10000, 20000, 30000, 40000]
    );
}

#[test]
fn spacing_every_token_count() {
    assert_eq!(Spacing::Multi("10".to_string()).to_edges().unwrap(), [10000, 10000, 10000, 10000]);
    assert_eq!(Spacing::Multi("10 20 30".to_string()).to_edges().unwrap(), [10000, 20000, 30000, 20000]);
    assert_eq!(Spacing::Multi("1 2 3 4 5".to_string()).to_edges().unwrap(), [0, 0, 0, 0]);
    assert_eq!(Spacing::Multi("".to_string()).to_edges().unwrap(), [0, 0, 0, 0]);
    assert_eq!(Spacing::Multi("  1.5\t-2.25  ".to_string()).to_edges().unwrap(), [1500, -2250, 1500, -2250]);
    assert_eq!(Spacing::Multi("10 px 20".to_string()).to_edges(), None);
    assert_eq!(Spacing::Multi("10 abc".to_string()).to_edges(), None);
}

#[test]
fn radius_every_token_count() {
    assert_eq!(BorderRadius::Uniform(4000).to_corners().unwrap(), [4000, 4000, 4000, 4000]);
    assert_eq!(BorderRadius::Multi("8".to_string()).to_corners().unwrap(), [8000, 8000, 8000, 8000]);
    assert_eq!(BorderRadius::Multi("8 4".to_string()).to_corners().unwrap(), [8000, 4000, 8000, 4000]);
    assert_eq!(BorderRadius::Multi("8 4 2".to_string()).to_corners().unwrap(), [0, 0, 0, 0]);
    assert_eq!(BorderRadius::Multi("8 8 0 0".to_string()).to_corners().unwrap(), [8000, 8000, 0, 0]);
    assert_eq!(BorderRadius::Multi("8 x".to_string()).to_corners(), None);
}

#[test]
fn dimension_to_px() {
    assert_eq!(Dimension::Px(1234).to_px(500_000), 1234);
    assert_eq!(Dimension::Percent("50%".to_string()).to_px(400_000), 200_000);
    assert_eq!(Dimension::Percent("12.5%".to_string()).to_px(80_000), 10_000);
    assert_eq!(Dimension::Percent("abc".to_string()).to_px(80_000), 0);
    assert_eq!(Dimension::Percent("-10%".to_string()).to_px(1_000), -100);
}

#[test]
fn font_weight_names_and_numbers() {
    assert_eq!(FontWeight::parse("bold"), Some(FontWeight(700)));
    assert_eq!(FontWeight::parse("Normal"), Some(FontWeight(400)));
    assert_eq!(FontWeight::parse("600"), Some(FontWeight(600)));
    assert_eq!(FontWeight::parse("heavy"), None);
    assert_eq!(FontWeight::parse("70000"), None);
}
