use dwtr::color::{resolve_color, rgba_hex_string};
use dwtr::escape::escape_str;
use dwtr::render::{
    orientation_to_degrees, GlyphInput, GlyphRunInput, OrientationAngle, SvgDocumentRenderer,
    SvgFrameRenderer,
};
use dwtr::sink::OutlineCmd;

fn box_outline(width: i64) -> Vec<OutlineCmd> {
    vec![
        OutlineCmd::BeginFigure(0, 0),
        OutlineCmd::AddLines(vec![(width, 0), (width, 512), (0, 512)]),
        OutlineCmd::EndFigure(true),
    ]
}

fn run_input(bidi_level: u32, glyphs: Vec<GlyphInput>) -> GlyphRunInput {
    GlyphRunInput {
        baseline_x: 0,
        baseline_y: 0,
        orientation: OrientationAngle::Deg0,
        is_sideways: false,
        bidi_level,
        upm: 1000,
        em_size: 24 * 512,
        color: None,
        source_text: String::from("xy"),
        glyphs,
    }
}

#[test]
fn advance_increases_for_even_bidi_level() {
    let mut doc = SvgDocumentRenderer::new(1024 * 512, 1024 * 512);
    let mut fr = SvgFrameRenderer::new(0, 0);
    let glyphs = vec![
        GlyphInput { advance: 600, outline: box_outline(400) },
        GlyphInput { advance: 700, outline: box_outline(300) },
        GlyphInput { advance: 800, outline: box_outline(200) },
    ];
    fr.draw_glyph_run(&mut doc.store, &run_input(0, glyphs));
    let run = &fr.frame.runs[0];
    let xs: Vec<i64> = run.glyphs.iter().map(|g| g.offset_x).collect();
    assert_eq!(xs, vec![0, 600, 1300]);
    assert!(run.glyphs.iter().all(|g| g.offset_y == 0));
}

#[test]
fn advance_decreases_for_odd_bidi_level() {
    let mut doc = SvgDocumentRenderer::new(1024 * 512, 1024 * 512);
    let mut fr = SvgFrameRenderer::new(0, 0);
    let glyphs = vec![
        GlyphInput { advance: 600, outline: box_outline(400) },
        GlyphInput { advance: 700, outline: box_outline(300) },
        GlyphInput { advance: 800, outline: box_outline(200) },
    ];
    fr.draw_glyph_run(&mut doc.store, &run_input(1, glyphs));
    let run = &fr.frame.runs[0];
    let xs: Vec<i64> = run.glyphs.iter().map(|g| g.offset_x).collect();
    assert_eq!(xs, vec![0, -600, -1300]);
}

#[test]
fn empty_outline_glyphs_are_not_placed() {
    let mut doc = SvgDocumentRenderer::new(1024 * 512, 1024 * 512);
    let mut fr = SvgFrameRenderer::new(0, 0);
    let glyphs = vec![
        GlyphInput { advance: 600, outline: vec![] },
        GlyphInput { advance: 700, outline: box_outline(300) },
    ];
    fr.draw_glyph_run(&mut doc.store, &run_input(0, glyphs));
    let run = &fr.frame.runs[0];
    // The space-like glyph contributes no placement, but its advance
    // still moves the pen.
    assert_eq!(run.glyphs.len(), 1);
    assert_eq!(run.glyphs[0].offset_x, 600);
    assert_eq!(doc.store.len(), 1);
}

#[test]
fn identical_outlines_share_one_path() {
    let mut doc = SvgDocumentRenderer::new(1024 * 512, 1024 * 512);
    let mut fr = SvgFrameRenderer::new(0, 0);
    let glyphs = vec![
        GlyphInput { advance: 600, outline: box_outline(400) },
        GlyphInput { advance: 600, outline: box_outline(400) },
    ];
    fr.draw_glyph_run(&mut doc.store, &run_input(0, glyphs));
    let run = &fr.frame.runs[0];
    assert_eq!(run.glyphs.len(), 2);
    assert_eq!(run.glyphs[0].path_id, 1);
    assert_eq!(run.glyphs[1].path_id, 1);
    assert_eq!(doc.store.len(), 1);
}

#[test]
fn orientation_degrees_with_sideways_twist() {
    assert_eq!(orientation_to_degrees(OrientationAngle::Deg0, false), 0);
    assert_eq!(orientation_to_degrees(OrientationAngle::Deg90, false), 90);
    assert_eq!(orientation_to_degrees(OrientationAngle::Deg180, false), 180);
    assert_eq!(orientation_to_degrees(OrientationAngle::Deg270, false), 270);
    assert_eq!(orientation_to_degrees(OrientationAngle::Deg0, true), 90);
    assert_eq!(orientation_to_degrees(OrientationAngle::Deg270, true), 0);
}

#[test]
fn color_resolution_to_hex() {
    assert_eq!(resolve_color("red"), "#ff0000");
    assert_eq!(resolve_color("#12345678"), "#12345678");
    // Text that does not parse resolves to the default, opaque black.
    assert_eq!(resolve_color("not a color"), "#000000");
    assert_eq!(rgba_hex_string(255, 0, 0, 128), "#ff000080");
    assert_eq!(rgba_hex_string(1, 2, 3, 255), "#010203");
}

#[test]
fn end_to_end_hello_catalog_and_placements() {
    // Five glyphs standing for the letters of "Hello": the two repeated
    // letters share one outline, so the catalog holds at most five
    // distinct paths while the frame holds exactly five placements.
    let mut doc = SvgDocumentRenderer::new(1024 * 512, 1024 * 512);
    let mut fr = SvgFrameRenderer::new(0, 0);
    let glyphs = vec![
        GlyphInput { advance: 600, outline: box_outline(500) },  // H
        GlyphInput { advance: 600, outline: box_outline(400) },  // e
        GlyphInput { advance: 600, outline: box_outline(200) },  // l
        GlyphInput { advance: 600, outline: box_outline(200) },  // l
        GlyphInput { advance: 600, outline: box_outline(450) },  // o
    ];
    let mut input = run_input(0, glyphs);
    input.source_text = String::from("Hello");
    fr.draw_glyph_run(&mut doc.store, &input);
    assert_eq!(fr.frame.runs.len(), 1);
    assert_eq!(fr.frame.runs[0].glyphs.len(), 5);
    assert!(doc.store.len() <= 5);
    assert_eq!(doc.store.len(), 4);
    doc.push_frame(fr);

    let xml = doc.into_xml();
    assert!(xml.starts_with("<svg xmlns=\"http://www.w3.org/2000/svg\" viewBox=\"0 0 1024 1024\""));
    assert!(xml.contains("<defs><path id=\"path1\""));
    assert!(xml.contains("<use href=\"#path1\""));
    assert!(xml.ends_with("</g></svg>"));
}

#[test]
fn run_group_carries_transform_color_and_source() {
    let mut doc = SvgDocumentRenderer::new(1024 * 512, 1024 * 512);
    let mut fr = SvgFrameRenderer::new(10 * 512, 20 * 512);
    fr.set_title(Some(String::from("A <title>")));
    fr.set_desc(Some(String::from("desc & more")));
    let mut input = run_input(0, vec![GlyphInput { advance: 600, outline: box_outline(300) }]);
    input.baseline_x = 5 * 512;
    input.baseline_y = 7 * 512;
    input.color = Some((255, 0, 0, 255));
    input.source_text = String::from("a<b");
    fr.draw_glyph_run(&mut doc.store, &input);
    doc.push_frame(fr);
    let xml = doc.into_xml();
    // 24 em over 1000 design units per em: scale 0.024.
    assert!(xml.contains(
        "<g transform=\"translate(15 27) rotate(0) scale(0.024)\" fill=\"#ff0000\" data-source-text=\"a&lt;b\">"
    ));
    assert!(xml.contains("<title>A &lt;title&gt;</title>"));
    assert!(xml.contains("<desc>desc &amp; more</desc>"));
}

#[test]
fn escaping_covers_all_seven_characters() {
    assert_eq!(
        escape_str("<>'\"&\n\r"),
        "&lt;&gt;&apos;&quot;&amp;&#xA;&#xD;"
    );
    assert_eq!(escape_str("plain"), "plain");
    assert_eq!(escape_str(""), "");
}

#[test]
fn copyable_frame_emits_transparent_text() {
    let mut doc = SvgDocumentRenderer::new(1024 * 512, 1024 * 512);
    let mut fr = SvgFrameRenderer::new(0, 0);
    fr.set_copyable(true);
    let mut input = run_input(0, vec![GlyphInput { advance: 600, outline: box_outline(300) }]);
    input.source_text = String::from("hi");
    fr.draw_glyph_run(&mut doc.store, &input);
    doc.push_frame(fr);
    let xml = doc.into_xml();
    assert!(xml.contains("font-size=\"1000\" fill=\"transparent\">hi</text>"));
}
