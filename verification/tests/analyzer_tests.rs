use dwtr::analyzer::{encode_utf16_units, DocumentAnalyzer};
use dwtr::document::{DocumentContent, DocumentFrame, HAlign, TextAlign, TextMetrics, VAlign, WritingMode};
use dwtr::style::TextStyle;

fn weight_style(w: i32) -> TextStyle {
    let mut s = TextStyle::new();
    s.font_weight = Some(w);
    s
}

fn slant_style() -> TextStyle {
    let mut s = TextStyle::new();
    s.font_style = Some(dwtr::style::FontStyle::Italic);
    s
}

fn nonempty_runs(a: &DocumentAnalyzer) -> Vec<(usize, usize, Option<i32>, Option<dwtr::style::FontStyle>)> {
    a.style_runs
        .iter()
        .filter(|r| r.wch_end > r.wch_start)
        .map(|r| (r.wch_start, r.wch_end, r.style.font_weight, r.style.font_style))
        .collect()
}

#[test]
fn run_segmentation() {
    let content = DocumentContent::Embed(vec![
        DocumentContent::Text(String::from("AB")),
        DocumentContent::Style(weight_style(700)),
        DocumentContent::Text(String::from("CD")),
    ]);
    let mut a = DocumentAnalyzer::new();
    a.analyze(&content);

    assert_eq!(a.text, vec![0x41, 0x42, 0x43, 0x44]);
    let runs = nonempty_runs(&a);
    assert_eq!(runs.len(), 2);
    assert_eq!((runs[0].0, runs[0].1), (0, 2));
    assert_eq!(runs[0].2, None);
    assert_eq!((runs[1].0, runs[1].1), (2, 4));
    assert_eq!(runs[1].2, Some(700));
}

#[test]
fn embed_scoping() {
    let content = DocumentContent::Embed(vec![
        DocumentContent::Style(weight_style(700)),
        DocumentContent::Embed(vec![DocumentContent::Style(slant_style())]),
        DocumentContent::Text(String::from("Z")),
    ]);
    let mut a = DocumentAnalyzer::new();
    a.analyze(&content);

    assert_eq!(a.text, vec![0x5A]);
    let runs = nonempty_runs(&a);
    assert_eq!(runs.len(), 1);
    assert_eq!((runs[0].0, runs[0].1), (0, 1));
    // "Z" falls under the outer style change only: the embedded scope's
    // slant must not leak out.
    assert_eq!(runs[0].2, Some(700));
    assert_eq!(runs[0].3, None);
}

#[test]
fn style_changes_cascade_laterally() {
    let content = DocumentContent::Embed(vec![
        DocumentContent::Style(weight_style(700)),
        DocumentContent::Style(slant_style()),
        DocumentContent::Text(String::from("Q")),
    ]);
    let mut a = DocumentAnalyzer::new();
    a.analyze(&content);

    let runs = nonempty_runs(&a);
    assert_eq!(runs.len(), 1);
    // The second change merges into the first: both fields are set.
    assert_eq!(runs[0].2, Some(700));
    assert_eq!(runs[0].3, Some(dwtr::style::FontStyle::Italic));
}

#[test]
fn utf16_encoding_basic_and_surrogates() {
    assert_eq!(encode_utf16_units("A"), vec![0x41]);
    assert_eq!(encode_utf16_units(""), Vec::<u16>::new());
    // U+1F600 encodes as a surrogate pair.
    assert_eq!(encode_utf16_units("\u{1F600}"), vec![0xD83D, 0xDE00]);
    assert_eq!(encode_utf16_units("A\u{1F600}"), vec![0x41, 0xD83D, 0xDE00]);
}

fn default_frame() -> DocumentFrame {
    DocumentFrame {
        left: None,
        top: None,
        right: None,
        bottom: None,
        title: None,
        desc: None,
        text_align: TextAlign::Left,
        writing_mode: WritingMode::LrTb,
        horizontal_align: HAlign::Left,
        vertical_align: VAlign::Top,
        line_height: 1500,
        baseline_offset: 800,
        contents: DocumentContent::Text(String::new()),
    }
}

#[test]
fn alignment_offset_centered() {
    let mut frame = default_frame();
    frame.horizontal_align = HAlign::Center;
    frame.vertical_align = VAlign::Center;
    let metrics = TextMetrics {
        left: 10 * 512,
        top: 10 * 512,
        width: 100 * 512,
        height: 20 * 512,
    };
    let (dx, dy) = DocumentAnalyzer::compute_layout_offset(1024 * 512, 1024 * 512, &frame, &metrics);
    assert_eq!(dx, 452 * 512);
    assert_eq!(dy, 492 * 512);
}

#[test]
fn alignment_offset_top_left_is_negative_metrics_origin() {
    let frame = default_frame();
    let metrics = TextMetrics {
        left: 3 * 512,
        top: 7 * 512,
        width: 100 * 512,
        height: 20 * 512,
    };
    let (dx, dy) = DocumentAnalyzer::compute_layout_offset(1024 * 512, 1024 * 512, &frame, &metrics);
    assert_eq!(dx, -3 * 512);
    assert_eq!(dy, -7 * 512);
}

#[test]
fn alignment_offset_explicit_edges() {
    let mut frame = default_frame();
    frame.left = Some(100 * 512);
    frame.right = Some(300 * 512);
    frame.horizontal_align = HAlign::Right;
    let metrics = TextMetrics { left: 0, top: 0, width: 50 * 512, height: 10 * 512 };
    let (dx, dy) = DocumentAnalyzer::compute_layout_offset(1024 * 512, 1024 * 512, &frame, &metrics);
    // Right anchor: frame right edge 300 minus text right edge 50.
    assert_eq!(dx, 250 * 512);
    assert_eq!(dy, 0);
}

#[test]
fn style_change_on_fresh_builder_applies_to_following_text() {
    // With nothing on the inheritance stack yet, a style change merges
    // into the all-unset default and governs the following text.
    let mut a = DocumentAnalyzer::new();
    a.analyze(&DocumentContent::Style(weight_style(700)));
    a.analyze(&DocumentContent::Text(String::from("A")));
    let runs = nonempty_runs(&a);
    assert_eq!(runs.len(), 1);
    assert_eq!((runs[0].0, runs[0].1), (0, 1));
    assert_eq!(runs[0].2, Some(700));
}
