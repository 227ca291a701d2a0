use dwtr::style::{FontStyle, FontVariationValue, TextStyle};

fn style_with_weight(w: i32) -> TextStyle {
    let mut s = TextStyle::new();
    s.font_weight = Some(w);
    s
}

#[test]
fn merge_identity_right() {
    let mut s = TextStyle::new();
    s.font_family = Some(String::from("serif"));
    s.font_weight = Some(700);
    s.font_style = Some(FontStyle::Italic);
    s.font_size = Some(24 * 512);
    s.color = Some(String::from("red"));
    s.lang = Some(String::from("en-us"));
    s.font_feature_settings.push((String::from("liga"), 1));
    s.font_variation_settings
        .push((String::from("wght"), FontVariationValue::Value(400 * 512)));

    let default_style = TextStyle::new();
    let mut merged = TextStyle::new();
    merged.font_family = s.font_family.clone();
    merged.font_weight = s.font_weight;
    merged.font_style = s.font_style;
    merged.font_size = s.font_size;
    merged.color = s.color.clone();
    merged.lang = s.lang.clone();
    merged.font_feature_settings = s.font_feature_settings.clone();
    merged.font_variation_settings = s.font_variation_settings.clone();
    merged.merge(&default_style);

    assert_eq!(merged.font_family, s.font_family);
    assert_eq!(merged.font_weight, s.font_weight);
    assert_eq!(merged.font_width, s.font_width);
    assert_eq!(merged.font_size, s.font_size);
    assert_eq!(merged.color, s.color);
    assert_eq!(merged.lang, s.lang);
    assert_eq!(merged.font_feature_settings, s.font_feature_settings);
    assert_eq!(merged.font_variation_settings, s.font_variation_settings);
}

#[test]
fn merge_identity_left() {
    let mut s = TextStyle::new();
    s.font_weight = Some(300);
    s.color = Some(String::from("#123456"));
    s.font_feature_settings.push((String::from("kern"), 0));

    let mut base = TextStyle::new();
    base.merge(&s);

    assert_eq!(base.font_family, None);
    assert_eq!(base.font_weight, Some(300));
    assert_eq!(base.color, Some(String::from("#123456")));
    assert_eq!(base.lang, None);
    assert_eq!(base.font_feature_settings, s.font_feature_settings);
    assert_eq!(base.font_variation_settings.len(), 0);
}

#[test]
fn feature_map_union() {
    let mut base = TextStyle::new();
    base.font_feature_settings.push((String::from("a"), 0));
    base.font_feature_settings.push((String::from("b"), 2));

    let mut over = TextStyle::new();
    over.font_feature_settings.push((String::from("a"), 1));

    base.merge(&over);
    assert_eq!(
        base.font_feature_settings,
        vec![(String::from("a"), 1), (String::from("b"), 2)]
    );
}

#[test]
fn merge_scalar_override_wins() {
    let mut base = style_with_weight(400);
    let over = style_with_weight(700);
    base.merge(&over);
    assert_eq!(base.font_weight, Some(700));

    let mut base2 = style_with_weight(400);
    let over2 = TextStyle::new();
    base2.merge(&over2);
    assert_eq!(base2.font_weight, Some(400));
}

#[test]
fn merge_variation_union() {
    let mut base = TextStyle::new();
    base.font_variation_settings
        .push((String::from("wght"), FontVariationValue::Value(100)));
    let mut over = TextStyle::new();
    over.font_variation_settings
        .push((String::from("wght"), FontVariationValue::Default));
    over.font_variation_settings
        .push((String::from("slnt"), FontVariationValue::Value(-6)));
    base.merge(&over);
    assert_eq!(
        base.font_variation_settings,
        vec![
            (String::from("wght"), FontVariationValue::Default),
            (String::from("slnt"), FontVariationValue::Value(-6)),
        ]
    );
}

#[test]
fn tag_of_four_chars() {
    assert_eq!(dwtr::style::string_to_tag("abcd"), 0x64636261);
}

#[test]
fn tag_of_short_string_space_padded() {
    assert_eq!(dwtr::style::string_to_tag("ab"), 0x20206261);
}

#[test]
fn tag_of_empty_string() {
    assert_eq!(dwtr::style::string_to_tag(""), 0x20202020);
}
