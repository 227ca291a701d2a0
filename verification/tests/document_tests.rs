use dwtr::analyzer::DocumentAnalyzer;
use dwtr::directives::{LayoutDirective, StyleSetting};
use dwtr::document::{
    DocumentContent, DocumentFrame, FlowDirection, HAlign, ReadingDirection, TextAlign,
    TextAlignment, VAlign, WritingMode,
};
use dwtr::style::TextStyle;

#[test]
fn writing_mode_directions() {
    assert_eq!(
        WritingMode::LrTb.directions(),
        (ReadingDirection::LeftToRight, FlowDirection::TopToBottom)
    );
    assert_eq!(
        WritingMode::TbRl.directions(),
        (ReadingDirection::TopToBottom, FlowDirection::RightToLeft)
    );
    assert_eq!(
        WritingMode::BtLr.directions(),
        (ReadingDirection::BottomToTop, FlowDirection::LeftToRight)
    );
}

#[test]
fn text_align_to_engine_alignment() {
    assert_eq!(TextAlign::Left.alignment(), TextAlignment::Leading);
    assert_eq!(TextAlign::Right.alignment(), TextAlignment::Trailing);
    assert_eq!(TextAlign::Center.alignment(), TextAlignment::Center);
    assert_eq!(TextAlign::Justify.alignment(), TextAlignment::Justified);
}

#[test]
fn defaults() {
    assert_eq!(WritingMode::default(), WritingMode::LrTb);
    assert_eq!(TextAlign::default(), TextAlign::Left);
    assert_eq!(HAlign::default(), HAlign::Left);
    assert_eq!(VAlign::default(), VAlign::Top);
}

fn frame_with(contents: DocumentContent) -> DocumentFrame {
    DocumentFrame {
        left: Some(100 * 512),
        top: None,
        right: None,
        bottom: Some(600 * 512),
        title: None,
        desc: None,
        text_align: TextAlign::Center,
        writing_mode: WritingMode::RlTb,
        horizontal_align: HAlign::Left,
        vertical_align: VAlign::Top,
        line_height: 1500,
        baseline_offset: 800,
        contents,
    }
}

#[test]
fn layout_directives_for_styled_text() {
    let mut style = TextStyle::new();
    style.font_weight = Some(700);
    style.font_feature_settings.push((String::from("liga"), 1));
    let content = DocumentContent::Embed(vec![
        DocumentContent::Style(style),
        DocumentContent::Text(String::from("AB")),
    ]);
    let mut a = DocumentAnalyzer::new();
    a.analyze(&content);
    let frame = frame_with(DocumentContent::Text(String::new()));
    let d = a.layout_directives(1024 * 512, 1024 * 512, &frame);

    assert_eq!(
        d[0],
        LayoutDirective::SetMaxSize { width: 924 * 512, height: 600 * 512 }
    );
    assert_eq!(d[1], LayoutDirective::SetTextAlignment(TextAlignment::Center));
    assert_eq!(
        d[2],
        LayoutDirective::SetReadingDirection(ReadingDirection::RightToLeft)
    );
    assert_eq!(d[3], LayoutDirective::SetFlowDirection(FlowDirection::TopToBottom));
    assert_eq!(
        d[4],
        LayoutDirective::SetLineSpacing { line_height_milli: 1500, baseline_micro: 1200000 }
    );
    // One non-empty run, [0, 2), with a weight and a feature setting.
    let applied: Vec<&LayoutDirective> = d[5..].iter().collect();
    assert_eq!(applied.len(), 2);
    assert_eq!(
        *applied[0],
        LayoutDirective::ApplyStyle { start: 0, length: 2, setting: StyleSetting::Weight(700) }
    );
    match applied[1] {
        LayoutDirective::ApplyStyle { start: 0, length: 2, setting: StyleSetting::Features(f) } => {
            assert_eq!(f.len(), 1);
            assert_eq!(f[0], (dwtr::style::string_to_tag("liga"), 1));
        }
        other => panic!("unexpected directive {:?}", other),
    }
}

#[test]
fn fixed_point_decimal_rendering() {
    assert_eq!(dwtr::fix::fix_to_string(0), "0");
    assert_eq!(dwtr::fix::fix_to_string(512), "1");
    assert_eq!(dwtr::fix::fix_to_string(-512 * 3 / 2), "-1.5");
    assert_eq!(dwtr::fix::fix_to_string(1), "0.001953125");
    assert_eq!(dwtr::fix::fix_to_string(512 * 1024 + 256), "1024.5");
    assert_eq!(dwtr::fix::micro_to_string(24000), "0.024");
    assert_eq!(dwtr::fix::micro_to_string(1500000), "1.5");
    assert_eq!(dwtr::fix::micro_to_string(2000000), "2");
}
