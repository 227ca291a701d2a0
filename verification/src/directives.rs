//! Layout directives: what the analyzer tells the layout engine.
//!
//! Laying a frame out is the engine's work; the decisions — the frame's
//! box, block-level settings, and which style settings apply to which
//! text range — are computed here as a plain list of directives that a
//! thin driver replays against the engine. Zero-length style runs are
//! skipped; each non-empty run yields one directive per set field, in
//! field order.

use vstd::prelude::*;
use crate::analyzer::{runs_wf, DocumentAnalyzer, StyleRun};
use crate::color::{css_parse_rgba8, css_rgba8_of};
use crate::document::{
    spec_alignment, spec_directions, DocumentFrame, FlowDirection, ReadingDirection, TextAlignment,
    RATIO_LIMIT,
};
use crate::fix::COORD_LIMIT;
use crate::style::{string_to_tag, tag_of, FontStyle, FontVariationValue};

verus! {

/// One style setting applied to a text range.
#[derive(Debug, PartialEq)]
pub enum StyleSetting {
    FamilyName(String),
    Weight(i32),
    Stretch(i32),
    Slant(FontStyle),
    /// Font size in sub-units.
    FontSize(i64),
    /// The drawing-effect color, as parsed RGBA bytes.
    Color((u8, u8, u8, u8)),
    Locale(String),
    /// Typographic features: tag code and parameter, in entry order.
    Features(Vec<(u32, u32)>),
    /// Variable-font axis values: tag code and value, set entries only.
    Variations(Vec<(u32, i64)>),
}

/// One directive to the layout engine.
#[derive(Debug, PartialEq)]
pub enum LayoutDirective {
    /// The frame's box: unset edges default to the canvas edges.
    SetMaxSize { width: i64, height: i64 },
    SetTextAlignment(TextAlignment),
    SetReadingDirection(ReadingDirection),
    SetFlowDirection(FlowDirection),
    /// Proportional line spacing, in thousandths of an em, and the
    /// baseline position, in millionths (line height times baseline
    /// offset).
    SetLineSpacing { line_height_milli: i64, baseline_micro: i64 },
    /// Applies one style setting to the half-open code-unit range.
    ApplyStyle { start: u32, length: u32, setting: StyleSetting },
}

/// The feature entries as tag codes, in entry order.
pub open spec fn feature_tags(entries: Seq<(String, u32)>) -> Seq<(u32, u32)>
    decreases entries.len(),
{
    if entries.len() == 0 {
        Seq::empty()
    } else {
        feature_tags(entries.drop_last()).push(
            (tag_of(entries.last().0@), entries.last().1),
        )
    }
}

/// The set variation entries as tag codes and values, in entry order;
/// entries keeping the font's default are dropped.
pub open spec fn variation_tags(entries: Seq<(String, FontVariationValue)>) -> Seq<(u32, i64)>
    decreases entries.len(),
{
    if entries.len() == 0 {
        Seq::empty()
    } else {
        let rest = variation_tags(entries.drop_last());
        match entries.last().1 {
            FontVariationValue::Value(v) => rest.push((tag_of(entries.last().0@), v)),
            FontVariationValue::Default => rest,
        }
    }
}

/// The range directive for one setting of a run.
pub open spec fn apply_of(run: StyleRun, setting: StyleSetting) -> LayoutDirective {
    LayoutDirective::ApplyStyle {
        start: run.wch_start as u32,
        length: (run.wch_end - run.wch_start) as u32,
        setting,
    }
}

/// The family directive of a run, when its family is set.
pub open spec fn family_d(run: StyleRun) -> Seq<LayoutDirective> {
    match run.style.font_family {
        Option::Some(v) => seq![apply_of(run, StyleSetting::FamilyName(v))],
        Option::None => Seq::empty(),
    }
}

/// The weight directive of a run, when its weight is set.
pub open spec fn weight_d(run: StyleRun) -> Seq<LayoutDirective> {
    match run.style.font_weight {
        Option::Some(v) => seq![apply_of(run, StyleSetting::Weight(v))],
        Option::None => Seq::empty(),
    }
}

/// The stretch directive of a run, when its width is set.
pub open spec fn width_d(run: StyleRun) -> Seq<LayoutDirective> {
    match run.style.font_width {
        Option::Some(v) => seq![apply_of(run, StyleSetting::Stretch(v))],
        Option::None => Seq::empty(),
    }
}

/// The slant directive of a run, when its style is set.
pub open spec fn slant_d(run: StyleRun) -> Seq<LayoutDirective> {
    match run.style.font_style {
        Option::Some(v) => seq![apply_of(run, StyleSetting::Slant(v))],
        Option::None => Seq::empty(),
    }
}

/// The size directive of a run, when its size is set.
pub open spec fn size_d(run: StyleRun) -> Seq<LayoutDirective> {
    match run.style.font_size {
        Option::Some(v) => seq![apply_of(run, StyleSetting::FontSize(v))],
        Option::None => Seq::empty(),
    }
}

/// The color directive of a run, when its color is set: the parsed RGBA
/// bytes of the color text.
pub open spec fn color_d(run: StyleRun) -> Seq<LayoutDirective> {
    match run.style.color {
        Option::Some(v) => seq![apply_of(run, StyleSetting::Color(css_rgba8_of(v@)))],
        Option::None => Seq::empty(),
    }
}

/// The locale directive of a run, when its language is set.
pub open spec fn locale_d(run: StyleRun) -> Seq<LayoutDirective> {
    match run.style.lang {
        Option::Some(v) => seq![apply_of(run, StyleSetting::Locale(v))],
        Option::None => Seq::empty(),
    }
}

/// The directives of one non-empty style run: one per set field, in
/// field order; the settings maps only when they are non-empty.
pub open spec fn run_directives(run: StyleRun) -> Seq<LayoutDirective> {
    family_d(run) + weight_d(run) + width_d(run) + slant_d(run) + size_d(run) + color_d(run)
        + locale_d(run)
}

/// Whether a run's feature settings yield a directive.
pub open spec fn has_features(run: StyleRun) -> bool {
    run.style.font_feature_settings@.len() > 0
}

/// Whether a run's variation settings yield a directive.
pub open spec fn has_variations(run: StyleRun) -> bool {
    run.style.font_variation_settings@.len() > 0
}

/// Whether the directives `d` are exactly the run directives of `run`:
/// the field directives, the features directive when there are features,
/// and the variations directive when there are variations. The settings
/// live in executable vectors, which a specification cannot construct,
/// so the two settings directives are characterized rather than built.
pub open spec fn is_run_directives(run: StyleRun, d: Seq<LayoutDirective>) -> bool {
    exists|fe: Seq<LayoutDirective>, va: Seq<LayoutDirective>|
        d == run_directives(run) + fe + va && feature_part(run, fe) && variation_part(run, va)
}

/// The features part of a run's directives.
pub open spec fn feature_part(run: StyleRun, d: Seq<LayoutDirective>) -> bool {
    if has_features(run) {
        &&& d.len() == 1
        &&& (d[0] matches LayoutDirective::ApplyStyle { start, length, setting } && (start
            == run.wch_start as u32 && length == (run.wch_end - run.wch_start) as u32 && (setting
            matches StyleSetting::Features(v) && v@ == feature_tags(
            run.style.font_feature_settings@,
        ))))
    } else {
        d.len() == 0
    }
}

/// The variations part of a run's directives.
pub open spec fn variation_part(run: StyleRun, d: Seq<LayoutDirective>) -> bool {
    if has_variations(run) {
        &&& d.len() == 1
        &&& (d[0] matches LayoutDirective::ApplyStyle { start, length, setting } && (start
            == run.wch_start as u32 && length == (run.wch_end - run.wch_start) as u32 && (setting
            matches StyleSetting::Variations(v) && v@ == variation_tags(
            run.style.font_variation_settings@,
        ))))
    } else {
        d.len() == 0
    }
}

/// Converts the feature entries to tag codes, exactly `feature_tags`.
fn feature_tags_vec(entries: &Vec<(String, u32)>) -> (r: Vec<(u32, u32)>)
    ensures
        r@ == feature_tags(entries@),
{
    let mut r: Vec<(u32, u32)> = Vec::new();
    let mut i: usize = 0;
    while i < entries.len()
        invariant
            i <= entries@.len(),
            r@ == feature_tags(entries@.take(i as int)),
        decreases entries@.len() - i,
    {
        let tag = string_to_tag(entries[i].0.as_str());
        r.push((tag, entries[i].1));
        proof {
            assert(entries@.take(i + 1).drop_last() =~= entries@.take(i as int));
            assert(entries@.take(i + 1).last() == entries@[i as int]);
        }
        i = i + 1;
    }
    proof {
        assert(entries@.take(entries@.len() as int) =~= entries@);
    }
    r
}

/// Converts the set variation entries to tag codes, exactly
/// `variation_tags`.
fn variation_tags_vec(entries: &Vec<(String, FontVariationValue)>) -> (r: Vec<(u32, i64)>)
    ensures
        r@ == variation_tags(entries@),
{
    let mut r: Vec<(u32, i64)> = Vec::new();
    let mut i: usize = 0;
    while i < entries.len()
        invariant
            i <= entries@.len(),
            r@ == variation_tags(entries@.take(i as int)),
        decreases entries@.len() - i,
    {
        match entries[i].1 {
            FontVariationValue::Value(v) => {
                let tag = string_to_tag(entries[i].0.as_str());
                r.push((tag, v));
            },
            FontVariationValue::Default => {},
        }
        proof {
            assert(entries@.take(i + 1).drop_last() =~= entries@.take(i as int));
            assert(entries@.take(i + 1).last() == entries@[i as int]);
        }
        i = i + 1;
    }
    proof {
        assert(entries@.take(entries@.len() as int) =~= entries@);
    }
    r
}

/// Whether `d` is the directive list of the whole run list from `k` on:
/// empty runs are skipped, the others contribute their directives in
/// order.
pub open spec fn is_directives_from(runs: Seq<StyleRun>, k: int, d: Seq<LayoutDirective>) -> bool
    decreases runs.len() - k,
{
    if k < 0 || k >= runs.len() {
        d.len() == 0
    } else if runs[k].wch_end <= runs[k].wch_start {
        is_directives_from(runs, k + 1, d)
    } else {
        exists|h: Seq<LayoutDirective>, t: Seq<LayoutDirective>|
            d == h + t && is_run_directives(runs[k], h) && is_directives_from(runs, k + 1, t)
    }
}

impl DocumentAnalyzer {
    /// The directives that lay this analyzer's text out in `frame` on a
    /// canvas of the given size: the frame's box, the block-level
    /// settings, then the per-run style settings in run order.
    #[verifier::rlimit(100)]
    #[verifier::spinoff_prover]
    pub fn layout_directives(
        &self,
        canvas_width: i64,
        canvas_height: i64,
        frame: &DocumentFrame,
    ) -> (r: Vec<LayoutDirective>)
        requires
            runs_wf(self@),
            self@.text.len() <= u32::MAX,
            0 <= canvas_width <= COORD_LIMIT,
            0 <= canvas_height <= COORD_LIMIT,
            crate::analyzer::frame_edges_bounded(*frame),
            0 <= frame.line_height <= RATIO_LIMIT,
            0 <= frame.baseline_offset <= RATIO_LIMIT,
        ensures
            r@.len() >= 5,
            r@[0] == (LayoutDirective::SetMaxSize {
                width: (crate::analyzer::edge_or(frame.right, canvas_width as int)
                    - crate::analyzer::edge_or(frame.left, 0)) as i64,
                height: (crate::analyzer::edge_or(frame.bottom, canvas_height as int)
                    - crate::analyzer::edge_or(frame.top, 0)) as i64,
            }),
            r@[1] == LayoutDirective::SetTextAlignment(spec_alignment(frame.text_align)),
            r@[2] == LayoutDirective::SetReadingDirection(
                spec_directions(frame.writing_mode).0,
            ),
            r@[3] == LayoutDirective::SetFlowDirection(spec_directions(frame.writing_mode).1),
            r@[4] == (LayoutDirective::SetLineSpacing {
                line_height_milli: frame.line_height,
                baseline_micro: (frame.line_height * frame.baseline_offset) as i64,
            }),
            is_directives_from(self.style_runs@, 0, r@.skip(5)),
    {
        let mut r: Vec<LayoutDirective> = Vec::new();
        let fl: i64 = match frame.left {
            Option::Some(e) => e,
            Option::None => 0,
        };
        let ft: i64 = match frame.top {
            Option::Some(e) => e,
            Option::None => 0,
        };
        let fr: i64 = match frame.right {
            Option::Some(e) => e,
            Option::None => canvas_width,
        };
        let fb: i64 = match frame.bottom {
            Option::Some(e) => e,
            Option::None => canvas_height,
        };
        r.push(LayoutDirective::SetMaxSize { width: fr - fl, height: fb - ft });
        r.push(LayoutDirective::SetTextAlignment(frame.text_align.alignment()));
        let dirs = frame.writing_mode.directions();
        r.push(LayoutDirective::SetReadingDirection(dirs.0));
        r.push(LayoutDirective::SetFlowDirection(dirs.1));
        proof {
            assert(RATIO_LIMIT == 0x8000_0000);
            assert(frame.line_height * frame.baseline_offset <= 0x8000_0000 * 0x8000_0000)
                by (nonlinear_arith)
                requires
                    0 <= frame.line_height <= 0x8000_0000,
                    0 <= frame.baseline_offset <= 0x8000_0000,
            ;
            assert(frame.line_height * frame.baseline_offset >= 0) by (nonlinear_arith)
                requires
                    0 <= frame.line_height,
                    0 <= frame.baseline_offset,
            ;
        }
        r.push(LayoutDirective::SetLineSpacing {
            line_height_milli: frame.line_height,
            baseline_micro: frame.line_height * frame.baseline_offset,
        });
        let ghost head = r@;
        proof {
            assert(head == r@.take(5)) by {
                assert(r@.take(5) =~= r@);
            }
            assert forall|d: Seq<LayoutDirective>|
                is_directives_from(self.style_runs@, 0, d) implies is_directives_from(
                self.style_runs@,
                0,
                #[trigger] (r@.skip(5) + d),
            ) by {
                assert(r@.skip(5) + d =~= d);
            }
        }
        let n = self.style_runs.len();
        let mut i: usize = 0;
        while i < n
            invariant
                n == self.style_runs@.len(),
                i <= n,
                runs_wf(self@),
                self@.text.len() <= u32::MAX,
                r@.len() >= 5,
                head == r@.take(5),
                head.len() == 5,
                forall|d: Seq<LayoutDirective>|
                    is_directives_from(self.style_runs@, i as int, d) ==> is_directives_from(
                        self.style_runs@,
                        0,
                        #[trigger] (r@.skip(5) + d),
                    ),
            decreases n - i,
        {
            let run = &self.style_runs[i];
            if run.wch_end > run.wch_start {
                let ghost pre = r@;
                proof {
                    assert(self@.runs[i as int].end <= self@.text.len());
                    assert(self.style_runs@[i as int].wch_end <= u32::MAX);
                }
                push_run_directives(&mut r, run);
                proof {
                    let h = r@.skip(pre.len() as int);
                    assert(r@.take(pre.len() as int) == pre);
                    assert(r@ =~= pre + h);
                    assert(r@.take(5) =~= pre.take(5));
                    assert(r@.skip(5) =~= pre.skip(5) + h);
                    assert forall|d: Seq<LayoutDirective>|
                        is_directives_from(self.style_runs@, i + 1, d) implies is_directives_from(
                        self.style_runs@,
                        0,
                        #[trigger] (r@.skip(5) + d),
                    ) by {
                        assert(is_run_directives(self.style_runs@[i as int], h));
                        assert(h + d == h + d && is_run_directives(self.style_runs@[i as int], h)
                            && is_directives_from(self.style_runs@, i + 1, d));
                        assert(is_directives_from(self.style_runs@, i as int, h + d));
                        assert(r@.skip(5) + d =~= pre.skip(5) + (h + d));
                        assert(is_directives_from(self.style_runs@, 0, pre.skip(5) + (h + d)));
                    }
                }
            } else {
                proof {
                    assert forall|d: Seq<LayoutDirective>|
                        is_directives_from(self.style_runs@, i + 1, d) implies is_directives_from(
                        self.style_runs@,
                        0,
                        #[trigger] (r@.skip(5) + d),
                    ) by {
                        assert(is_directives_from(self.style_runs@, i as int, d));
                    }
                }
            }
            i = i + 1;
        }
        proof {
            let empty = Seq::<LayoutDirective>::empty();
            assert(is_directives_from(self.style_runs@, n as int, empty));
            assert(r@.skip(5) + empty =~= r@.skip(5));
            assert(r@[0] == head[0]);
            assert(r@[1] == head[1]);
            assert(r@[2] == head[2]);
            assert(r@[3] == head[3]);
            assert(r@[4] == head[4]);
        }
        r
    }
}

/// The first four field directives of a run.
#[verifier::rlimit(100)]
#[verifier::spinoff_prover]
fn field_directives_a(run: &StyleRun) -> (h: Vec<LayoutDirective>)
    requires
        run.wch_start <= run.wch_end <= u32::MAX,
    ensures
        h@ == family_d(*run) + weight_d(*run) + width_d(*run) + slant_d(*run),
{
    let start: u32 = run.wch_start as u32;
    let length: u32 = (run.wch_end - run.wch_start) as u32;
    let mut h: Vec<LayoutDirective> = Vec::new();
    match &run.style.font_family {
        Option::Some(v) => h.push(
            LayoutDirective::ApplyStyle {
                start,
                length,
                setting: StyleSetting::FamilyName(v.clone()),
            },
        ),
        Option::None => {},
    }
    proof {
        assert(h@ =~= family_d(*run));
    }
    match &run.style.font_weight {
        Option::Some(v) => h.push(
            LayoutDirective::ApplyStyle { start, length, setting: StyleSetting::Weight(*v) },
        ),
        Option::None => {},
    }
    proof {
        assert(h@ =~= family_d(*run) + weight_d(*run));
    }
    match &run.style.font_width {
        Option::Some(v) => h.push(
            LayoutDirective::ApplyStyle { start, length, setting: StyleSetting::Stretch(*v) },
        ),
        Option::None => {},
    }
    proof {
        assert(h@ =~= family_d(*run) + weight_d(*run) + width_d(*run));
    }
    match &run.style.font_style {
        Option::Some(v) => h.push(
            LayoutDirective::ApplyStyle { start, length, setting: StyleSetting::Slant(*v) },
        ),
        Option::None => {},
    }
    proof {
        assert(h@ =~= family_d(*run) + weight_d(*run) + width_d(*run) + slant_d(*run));
    }
    h
}

/// The last three field directives of a run.
#[verifier::rlimit(100)]
#[verifier::spinoff_prover]
fn field_directives_b(run: &StyleRun) -> (h: Vec<LayoutDirective>)
    requires
        run.wch_start <= run.wch_end <= u32::MAX,
    ensures
        h@ == size_d(*run) + color_d(*run) + locale_d(*run),
{
    let start: u32 = run.wch_start as u32;
    let length: u32 = (run.wch_end - run.wch_start) as u32;
    let mut h: Vec<LayoutDirective> = Vec::new();
    match &run.style.font_size {
        Option::Some(v) => h.push(
            LayoutDirective::ApplyStyle { start, length, setting: StyleSetting::FontSize(*v) },
        ),
        Option::None => {},
    }
    proof {
        assert(h@ =~= size_d(*run));
    }
    match &run.style.color {
        Option::Some(v) => {
            let rgba = css_parse_rgba8(v.as_str());
            h.push(
                LayoutDirective::ApplyStyle {
                    start,
                    length,
                    setting: StyleSetting::Color(rgba),
                },
            );
        },
        Option::None => {},
    }
    proof {
        assert(h@ =~= size_d(*run) + color_d(*run));
    }
    match &run.style.lang {
        Option::Some(v) => h.push(
            LayoutDirective::ApplyStyle {
                start,
                length,
                setting: StyleSetting::Locale(v.clone()),
            },
        ),
        Option::None => {},
    }
    proof {
        assert(h@ =~= size_d(*run) + color_d(*run) + locale_d(*run));
    }
    h
}

/// The seven field directives of a run, exactly `run_directives`.
#[verifier::rlimit(100)]
#[verifier::spinoff_prover]
fn field_directives(run: &StyleRun) -> (h: Vec<LayoutDirective>)
    requires
        run.wch_start <= run.wch_end <= u32::MAX,
    ensures
        h@ == run_directives(*run),
{
    let mut h = field_directives_a(run);
    let mut b = field_directives_b(run);
    h.append(&mut b);
    proof {
        assert(h@ =~= run_directives(*run));
    }
    h
}

/// Appends the directives of one non-empty run.
#[verifier::rlimit(100)]
#[verifier::spinoff_prover]
fn push_run_directives(out: &mut Vec<LayoutDirective>, run: &StyleRun)
    requires
        run.wch_start <= run.wch_end <= u32::MAX,
    ensures
        final(out)@.len() >= old(out)@.len(),
        ({
            let h = final(out)@.skip(old(out)@.len() as int);
            &&& final(out)@.take(old(out)@.len() as int) == old(out)@
            &&& is_run_directives(*run, h)
        }),
{
    let start: u32 = run.wch_start as u32;
    let length: u32 = (run.wch_end - run.wch_start) as u32;
    let mut h = field_directives(run);
    let ghost hs = h@;
    let mut fe: Vec<LayoutDirective> = Vec::new();
    if run.style.font_feature_settings.len() > 0 {
        let tags = feature_tags_vec(&run.style.font_feature_settings);
        fe.push(
            LayoutDirective::ApplyStyle {
                start,
                length,
                setting: StyleSetting::Features(tags),
            },
        );
    }
    proof {
        assert(feature_part(*run, fe@));
    }
    let mut va: Vec<LayoutDirective> = Vec::new();
    if run.style.font_variation_settings.len() > 0 {
        let tags = variation_tags_vec(&run.style.font_variation_settings);
        va.push(
            LayoutDirective::ApplyStyle {
                start,
                length,
                setting: StyleSetting::Variations(tags),
            },
        );
    }
    proof {
        assert(variation_part(*run, va@));
    }
    let ghost fes = fe@;
    let ghost vas = va@;
    h.append(&mut fe);
    h.append(&mut va);
    let ghost whole = h@;
    out.append(&mut h);
    proof {
        assert(whole == hs + fes + vas);
        assert(is_run_directives(*run, whole));
        assert(final(out)@.take(old(out)@.len() as int) =~= old(out)@);
        assert(final(out)@.skip(old(out)@.len() as int) =~= whole);
    }
}

} // verus!
