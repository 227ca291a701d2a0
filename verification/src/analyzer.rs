//! The style-run builder: flattens a content tree into a linear text
//! buffer and a list of style runs.
//!
//! The builder walks the tree keeping a stack of effective styles. Text
//! extends the current run; a style change cascades laterally (it merges
//! into the effective style — the all-unset default when the stack is
//! empty — and opens a new run); an embed opens a new scope whose style
//! changes are discarded on exit. Runs may be empty (`end == start`);
//! consumers skip them.

use vstd::prelude::*;
use crate::document::{DocumentContent, DocumentFrame, HAlign, TextMetrics, VAlign};
use crate::fix::half_round;
use crate::style::{default_style_view, spec_merge, StyleView, TextStyle};

verus! {

/// One style run: the half-open range `[wch_start, wch_end)` of UTF-16
/// code units of the text buffer that shares one resolved style.
pub struct StyleRun {
    pub wch_start: usize,
    pub wch_end: usize,
    pub style: TextStyle,
}

/// The logical content of a style run.
#[verifier::ext_equal]
pub ghost struct RunView {
    pub start: int,
    pub end: int,
    pub style: StyleView,
}

impl StyleRun {
    /// The logical content of this run.
    pub open spec fn view(&self) -> RunView {
        RunView { start: self.wch_start as int, end: self.wch_end as int, style: self.style@ }
    }
}

/// The logical state of an analyzer: the text so far, the runs so far,
/// and the stack of effective styles.
#[verifier::ext_equal]
pub ghost struct AnalyzerView {
    pub text: Seq<u16>,
    pub runs: Seq<RunView>,
    pub stack: Seq<StyleView>,
}

/// The UTF-16 code units of one character: the scalar itself, or a
/// surrogate pair for scalars beyond the basic plane.
pub open spec fn utf16_char(c: char) -> Seq<u16> {
    let v = c as u32;
    if v < 0x10000 {
        seq![v as u16]
    } else {
        seq![
            (0xD800 + (v - 0x10000) / 0x400) as u16,
            (0xDC00 + (v - 0x10000) % 0x400) as u16,
        ]
    }
}

/// The UTF-16 encoding of a character sequence.
pub open spec fn utf16_text(s: Seq<char>) -> Seq<u16>
    decreases s.len(),
{
    if s.len() == 0 {
        Seq::empty()
    } else {
        utf16_text(s.drop_last()) + utf16_char(s.last())
    }
}

/// Encodes `s` as UTF-16 code units, exactly `utf16_text(s@)`.
pub fn encode_utf16_units(s: &str) -> (out: Vec<u16>)
    ensures
        out@ == utf16_text(s@),
{
    let mut out: Vec<u16> = Vec::new();
    let len = s.unicode_len();
    let mut i: usize = 0;
    while i < len
        invariant
            len == s@.len(),
            i <= len,
            out@ == utf16_text(s@.take(i as int)),
        decreases len - i,
    {
        let c = s.get_char(i);
        let v = c as u32;
        proof {
            vstd::utf8::char_is_scalar(c);
        }
        if v < 0x10000 {
            out.push(v as u16);
        } else {
            let m = v - 0x10000;
            out.push((0xD800 + m / 0x400) as u16);
            out.push((0xDC00 + m % 0x400) as u16);
        }
        proof {
            assert(s@.take(i + 1).drop_last() =~= s@.take(i as int));
            assert(s@.take(i + 1).last() == s@[i as int]);
            assert(out@ =~= utf16_text(s@.take(i + 1)));
        }
        i = i + 1;
    }
    proof {
        assert(s@.take(len as int) =~= s@);
    }
    out
}

/// The style the next text would be laid out with: the top of the stack,
/// or the all-unset style when the stack is empty.
pub open spec fn effective(stack: Seq<StyleView>) -> StyleView {
    if stack.len() > 0 {
        stack.last()
    } else {
        default_style_view()
    }
}

/// `v` with the last run's end extended to the current text length.
pub open spec fn synced(v: AnalyzerView) -> AnalyzerView {
    if v.runs.len() > 0 {
        AnalyzerView {
            text: v.text,
            runs: v.runs.update(
                v.runs.len() - 1,
                RunView {
                    start: v.runs.last().start,
                    end: v.text.len() as int,
                    style: v.runs.last().style,
                },
            ),
            stack: v.stack,
        }
    } else {
        v
    }
}

/// `v` with a new empty run of the given style opened at the current text
/// length.
pub open spec fn with_run(v: AnalyzerView, style: StyleView) -> AnalyzerView {
    AnalyzerView {
        text: v.text,
        runs: v.runs.push(
            RunView { start: v.text.len() as int, end: v.text.len() as int, style },
        ),
        stack: v.stack,
    }
}

/// The analyzer state after absorbing one content node.
///
/// Text appends its UTF-16 units and extends the last run. A style change
/// merges into the effective style — the top of the stack, which it
/// replaces, or the all-unset default, which it pushes when the stack is
/// empty — and opens a new run with the merged style. An embed closes the current
/// run's extent, pushes a copy of the effective style, opens a run for the
/// inner scope, absorbs the children, pops the stack, and opens one more
/// run resuming the pre-embed effective style.
pub open spec fn spec_analyze(v: AnalyzerView, c: DocumentContent) -> AnalyzerView
    decreases c,
{
    match c {
        DocumentContent::Text(tx) => {
            synced(AnalyzerView { text: v.text + utf16_text(tx@), runs: v.runs, stack: v.stack })
        },
        DocumentContent::Style(st) => {
            let merged = spec_merge(effective(v.stack), st@);
            let stack2 = if v.stack.len() > 0 {
                v.stack.update(v.stack.len() - 1, merged)
            } else {
                v.stack.push(merged)
            };
            with_run(AnalyzerView { text: v.text, runs: v.runs, stack: stack2 }, merged)
        },
        DocumentContent::Embed(sub) => {
            let eff = effective(v.stack);
            let v1 = synced(v);
            let v2 = with_run(
                AnalyzerView { text: v1.text, runs: v1.runs, stack: v1.stack.push(eff) },
                eff,
            );
            let v3 = spec_analyze_list(v2, sub@);
            let v4 = AnalyzerView { text: v3.text, runs: v3.runs, stack: v3.stack.drop_last() };
            with_run(v4, eff)
        },
    }
}

/// The analyzer state after absorbing a list of content nodes in order.
pub open spec fn spec_analyze_list(v: AnalyzerView, s: Seq<DocumentContent>) -> AnalyzerView
    decreases s,
{
    if s.len() == 0 {
        v
    } else {
        spec_analyze(spec_analyze_list(v, s.drop_last()), s.last())
    }
}

/// Whether every style in a content tree is well-formed.
pub open spec fn content_wf(c: DocumentContent) -> bool
    decreases c,
{
    match c {
        DocumentContent::Text(_) => true,
        DocumentContent::Style(st) => st.wf(),
        DocumentContent::Embed(sub) => forall|i: int|
            0 <= i < sub@.len() ==> content_wf(#[trigger] sub@[i]),
    }
}

/// A copy of a style with the same content.
pub fn clone_style(s: &TextStyle) -> (r: TextStyle)
    ensures
        r@ == s@,
        r.wf() == s.wf(),
{
    let r = TextStyle {
        font_family: match &s.font_family {
            Option::Some(v) => Option::Some(v.clone()),
            Option::None => Option::None,
        },
        font_weight: s.font_weight,
        font_width: s.font_width,
        font_style: s.font_style,
        font_size: s.font_size,
        color: match &s.color {
            Option::Some(v) => Option::Some(v.clone()),
            Option::None => Option::None,
        },
        lang: match &s.lang {
            Option::Some(v) => Option::Some(v.clone()),
            Option::None => Option::None,
        },
        font_feature_settings: clone_entries(&s.font_feature_settings),
        font_variation_settings: clone_entries(&s.font_variation_settings),
    };
    r
}

/// A copy of a settings entry list with the same content.
fn clone_entries<V: Copy>(entries: &Vec<(String, V)>) -> (r: Vec<(String, V)>)
    ensures
        r@ == entries@,
{
    let mut r: Vec<(String, V)> = Vec::new();
    let mut i: usize = 0;
    while i < entries.len()
        invariant
            i <= entries@.len(),
            r@ =~= entries@.take(i as int),
        decreases entries@.len() - i,
    {
        r.push((entries[i].0.clone(), entries[i].1));
        proof {
            assert(r@ =~= entries@.take(i + 1));
        }
        i = i + 1;
    }
    proof {
        assert(entries@.take(entries@.len() as int) =~= entries@);
        assert(r@ == entries@);
    }
    r
}

/// The style-run builder.
pub struct DocumentAnalyzer {
    /// The text buffer, UTF-16 encoded.
    pub text: Vec<u16>,
    pub style_runs: Vec<StyleRun>,
    pub style_stack: Vec<TextStyle>,
}

impl DocumentAnalyzer {
    /// The logical state of this analyzer.
    pub open spec fn view(&self) -> AnalyzerView {
        AnalyzerView {
            text: self.text@,
            runs: self.style_runs@.map_values(|r: StyleRun| r@),
            stack: self.style_stack@.map_values(|s: TextStyle| s@),
        }
    }

    /// Well-formed: every style on the stack is.
    pub open spec fn wf(&self) -> bool {
        forall|i: int| 0 <= i < self.style_stack@.len() ==> (#[trigger] self.style_stack@[i]).wf()
    }

    /// A fresh builder: no text, no runs, no stack.
    pub fn new() -> (a: DocumentAnalyzer)
        ensures
            a.wf(),
            a@.text == Seq::<u16>::empty(),
            a@.runs == Seq::<RunView>::empty(),
            a@.stack == Seq::<StyleView>::empty(),
    {
        let a = DocumentAnalyzer { text: Vec::new(), style_runs: Vec::new(), style_stack: Vec::new() };
        proof {
            assert(a@.runs =~= Seq::<RunView>::empty());
            assert(a@.stack =~= Seq::<StyleView>::empty());
        }
        a
    }

    /// Takes the finished text buffer and style-run list.
    pub fn finish(self) -> (r: (Vec<u16>, Vec<StyleRun>))
        ensures
            r.0@ == self@.text,
            r.1@.map_values(|x: StyleRun| x@) == self@.runs,
    {
        (self.text, self.style_runs)
    }

    /// Extends the last run's end to the current text length.
    fn sync_style_run_length(&mut self)
        ensures
            final(self)@ == synced(old(self)@),
            final(self).style_stack == old(self).style_stack,
    {
        let n = self.style_runs.len();
        if n > 0 {
            let mut run = self.style_runs.pop().unwrap();
            run.wch_end = self.text.len();
            self.style_runs.push(run);
            proof {
                assert(self@.runs =~= synced(old(self)@).runs);
                assert(self@ =~= synced(old(self)@));
            }
        }
    }

    /// Opens a new empty run of the given style at the current text length.
    fn start_style_run(&mut self, style: TextStyle)
        ensures
            final(self)@ == with_run(old(self)@, style@),
            final(self).style_stack == old(self).style_stack,
    {
        let n = self.text.len();
        self.style_runs.push(StyleRun { wch_start: n, wch_end: n, style });
        proof {
            assert(self@.runs =~= with_run(old(self)@, style@).runs);
            assert(self@ =~= with_run(old(self)@, style@));
        }
    }
}

impl DocumentAnalyzer {
    /// Absorbs one content node into the builder state, exactly as
    /// `spec_analyze` describes.
    pub fn analyze(&mut self, dc: &DocumentContent)
        requires
            old(self).wf(),
            content_wf(*dc),
        ensures
            final(self)@ == spec_analyze(old(self)@, *dc),
            final(self).wf(),
        decreases *dc,
    {
        match dc {
            DocumentContent::Text(tx) => {
                let mut ws = encode_utf16_units(tx.as_str());
                self.text.append(&mut ws);
                proof {
                    assert(self@ =~= AnalyzerView {
                        text: old(self)@.text + utf16_text(tx@),
                        runs: old(self)@.runs,
                        stack: old(self)@.stack,
                    });
                }
                self.sync_style_run_length();
            },
            DocumentContent::Style(st) => {
                let n = self.style_stack.len();
                if n > 0 {
                    proof {
                        assert(self.style_stack@[n - 1].wf());
                        assert(old(self)@.stack.last() == self.style_stack@[n - 1]@);
                    }
                    let mut top = self.style_stack.pop().unwrap();
                    top.merge(st);
                    let copy = clone_style(&top);
                    self.style_stack.push(top);
                    proof {
                        assert(self@.stack =~= old(self)@.stack.update(
                            old(self)@.stack.len() - 1,
                            spec_merge(old(self)@.stack.last(), st@),
                        ));
                        assert(self@.runs == old(self)@.runs);
                        assert(self@.text == old(self)@.text);
                    }
                    self.start_style_run(copy);
                    proof {
                        assert(self@ =~= spec_analyze(old(self)@, *dc));
                        assert forall|i: int|
                            0 <= i < self.style_stack@.len() implies (#[trigger] self.style_stack@[i]).wf() by {
                            if i < self.style_stack@.len() - 1 {
                                assert(old(self).style_stack@[i].wf());
                            }
                        }
                    }
                } else {
                    let mut top = TextStyle::new();
                    top.merge(st);
                    let copy = clone_style(&top);
                    self.style_stack.push(top);
                    proof {
                        assert(self@.stack =~= old(self)@.stack.push(
                            spec_merge(default_style_view(), st@),
                        ));
                        assert(self@.runs == old(self)@.runs);
                        assert(self@.text == old(self)@.text);
                    }
                    self.start_style_run(copy);
                    proof {
                        assert(self@ =~= spec_analyze(old(self)@, *dc));
                        assert forall|i: int|
                            0 <= i < self.style_stack@.len() implies (#[trigger] self.style_stack@[i]).wf() by {
                            if i < self.style_stack@.len() - 1 {
                                assert(old(self).style_stack@[i].wf());
                            }
                        }
                    }
                }
            },
            DocumentContent::Embed(sub) => {
                proof {
                    assert(content_wf(*dc));
                }
                self.sync_style_run_length();
                let n = self.style_stack.len();
                let last_style = if n > 0 {
                    proof {
                        assert(self.style_stack@[n - 1].wf());
                    }
                    clone_style(&self.style_stack[n - 1])
                } else {
                    TextStyle::new()
                };
                proof {
                    assert(last_style@ == effective(old(self)@.stack));
                }
                self.style_stack.push(clone_style(&last_style));
                self.start_style_run(clone_style(&last_style));
                let ghost mid = self@;
                proof {
                    assert(mid =~= with_run(
                        AnalyzerView {
                            text: synced(old(self)@).text,
                            runs: synced(old(self)@).runs,
                            stack: synced(old(self)@).stack.push(effective(old(self)@.stack)),
                        },
                        effective(old(self)@.stack),
                    ));
                }
                let end = sub.len();
                let mut i: usize = 0;
                while i < end
                    invariant
                        *dc == DocumentContent::Embed(*sub),
                        end == sub@.len(),
                        i <= end,
                        self@ == spec_analyze_list(mid, sub@.take(i as int)),
                        self.wf(),
                        forall|j: int| 0 <= j < sub@.len() ==> content_wf(#[trigger] sub@[j]),
                        mid.stack.len() == self.style_stack@.len(),
                        mid.stack.len() >= 1,
                    decreases end - i,
                {
                    proof {
                        assert(*sub == (*dc)->Embed_0);
                        assert(decreases_to!(*dc => (*dc)->Embed_0));
                        assert(decreases_to!(*sub => sub@));
                        assert(decreases_to!(sub@ => sub@[i as int]));
                        lemma_analyze_list_stack(mid, sub@.take(i as int));
                    }
                    let ghost pre = self@;
                    self.analyze(&sub[i]);
                    proof {
                        assert(sub@.take(i + 1).drop_last() =~= sub@.take(i as int));
                        assert(sub@.take(i + 1).last() == sub@[i as int]);
                        assert(spec_analyze_list(mid, sub@.take(i + 1)) == spec_analyze(
                            spec_analyze_list(mid, sub@.take(i as int)),
                            sub@[i as int],
                        ));
                        lemma_analyze_stack(pre, sub@[i as int]);
                    }
                    i = i + 1;
                }
                proof {
                    assert(sub@.take(end as int) =~= sub@);
                    lemma_analyze_list_stack(mid, sub@);
                    assert(self.style_stack@.len() == mid.stack.len());
                    assert(self.style_stack@.len() >= 1);
                }
                let ghost v3 = self@;
                let popped = self.style_stack.pop();
                proof {
                    assert(self@.stack =~= v3.stack.drop_last());
                    assert(self@.runs == v3.runs);
                    assert(self@.text == v3.text);
                }
                self.start_style_run(last_style);
                proof {
                    assert(self@ =~= spec_analyze(old(self)@, *dc));
                }
            },
        }
    }
}

/// The stack discipline of the builder: a node never changes the depth
/// of a non-empty style stack, never touches entries below the top, and
/// a node that is not a style change leaves the whole stack as it was —
/// in particular an embedded scope never leaks its style changes to the
/// siblings after it. (A style change on an empty stack pushes the one
/// merged style.)
pub proof fn lemma_analyze_stack(v: AnalyzerView, c: DocumentContent)
    ensures
        v.stack.len() > 0 ==> spec_analyze(v, c).stack.len() == v.stack.len(),
        forall|i: int| 0 <= i < v.stack.len() - 1 ==> spec_analyze(v, c).stack[i] == v.stack[i],
        !(c is Style) ==> spec_analyze(v, c).stack == v.stack,
    decreases c,
{
    match c {
        DocumentContent::Text(_) => {},
        DocumentContent::Style(_) => {},
        DocumentContent::Embed(sub) => {
            let eff = effective(v.stack);
            let v1 = synced(v);
            let v2 = with_run(
                AnalyzerView { text: v1.text, runs: v1.runs, stack: v1.stack.push(eff) },
                eff,
            );
            lemma_analyze_list_stack(v2, sub@);
            let v3 = spec_analyze_list(v2, sub@);
            assert(v3.stack.len() == v.stack.len() + 1);
            assert forall|i: int| 0 <= i < v.stack.len() implies v3.stack[i] == v.stack[i] by {
                assert(v2.stack[i] == v.stack[i]);
            }
            assert(v3.stack.drop_last() =~= v.stack);
        },
    }
}

/// The stack discipline of `spec_analyze_list`: the depth of a non-empty
/// stack is kept and entries below the top are kept.
pub proof fn lemma_analyze_list_stack(v: AnalyzerView, s: Seq<DocumentContent>)
    ensures
        v.stack.len() > 0 ==> spec_analyze_list(v, s).stack.len() == v.stack.len(),
        forall|i: int| 0 <= i < v.stack.len() - 1 ==> spec_analyze_list(v, s).stack[i]
            == v.stack[i],
    decreases s,
{
    if s.len() > 0 {
        lemma_analyze_list_stack(v, s.drop_last());
        lemma_analyze_stack(spec_analyze_list(v, s.drop_last()), s.last());
    }
}

/// An embedded scope is self-contained: absorbing an embed (or plain
/// text) restores the style stack, so the effective style seen by the
/// following siblings is exactly the effective style before it.
pub proof fn lemma_embed_scoping(v: AnalyzerView, c: DocumentContent)
    requires
        !(c is Style),
    ensures
        spec_analyze(v, c).stack == v.stack,
        effective(spec_analyze(v, c).stack) == effective(v.stack),
{
    lemma_analyze_stack(v, c);
}

/// Whether the run list is ordered: every run lies inside the text, and
/// runs come in non-decreasing, non-overlapping order.
pub open spec fn runs_wf(v: AnalyzerView) -> bool {
    &&& forall|i: int|
        0 <= i < v.runs.len() ==> 0 <= (#[trigger] v.runs[i]).start <= v.runs[i].end
            <= v.text.len()
    &&& forall|i: int|
        0 <= i && i + 1 < v.runs.len() ==> (#[trigger] v.runs[i]).end <= v.runs[i + 1].start
}

/// Run ordering is invariant: absorbing any content node keeps the run
/// list ordered and only ever appends to the text.
pub proof fn lemma_analyze_runs(v: AnalyzerView, c: DocumentContent)
    requires
        runs_wf(v),
    ensures
        runs_wf(spec_analyze(v, c)),
        v.text.is_prefix_of(spec_analyze(v, c).text),
    decreases c,
{
    match c {
        DocumentContent::Text(tx) => {
            let t2 = v.text + utf16_text(tx@);
            assert(v.text.is_prefix_of(t2)) by {
                assert(t2.take(v.text.len() as int) =~= v.text);
            }
        },
        DocumentContent::Style(_) => {},
        DocumentContent::Embed(sub) => {
            let eff = effective(v.stack);
            let v1 = synced(v);
            let v2 = with_run(
                AnalyzerView { text: v1.text, runs: v1.runs, stack: v1.stack.push(eff) },
                eff,
            );
            assert(runs_wf(v2));
            lemma_analyze_list_runs(v2, sub@);
            let v3 = spec_analyze_list(v2, sub@);
            let v4 = AnalyzerView { text: v3.text, runs: v3.runs, stack: v3.stack.drop_last() };
            assert(runs_wf(v4));
            assert(runs_wf(with_run(v4, eff)));
        },
    }
}

/// Run ordering is invariant over a list of content nodes.
pub proof fn lemma_analyze_list_runs(v: AnalyzerView, s: Seq<DocumentContent>)
    requires
        runs_wf(v),
    ensures
        runs_wf(spec_analyze_list(v, s)),
        v.text.is_prefix_of(spec_analyze_list(v, s).text),
    decreases s,
{
    if s.len() == 0 {
        assert(v.text.is_prefix_of(v.text)) by {
            assert(v.text.take(v.text.len() as int) =~= v.text);
        }
    } else {
        lemma_analyze_list_runs(v, s.drop_last());
        let w = spec_analyze_list(v, s.drop_last());
        lemma_analyze_runs(w, s.last());
        assert(v.text.is_prefix_of(spec_analyze(w, s.last()).text)) by {
            let t3 = spec_analyze(w, s.last()).text;
            assert(w.text == t3.take(w.text.len() as int));
            assert(t3.take(v.text.len() as int) =~= w.text.take(v.text.len() as int));
        }
    }
}

/// The alignment factor of a horizontal anchor, in halves.
pub open spec fn h_factor2(h: HAlign) -> int {
    match h {
        HAlign::Left => 0,
        HAlign::Center => 1,
        HAlign::Right => 2,
    }
}

/// The alignment factor of a vertical anchor, in halves.
pub open spec fn v_factor2(v: VAlign) -> int {
    match v {
        VAlign::Top => 0,
        VAlign::Center => 1,
        VAlign::Bottom => 2,
    }
}

/// The value of an optional frame edge, in sub-units, defaulting to the
/// given canvas edge.
pub open spec fn edge_or(edge: Option<i64>, dflt: int) -> int {
    match edge {
        Option::Some(e) => e as int,
        Option::None => dflt,
    }
}

/// Whether a frame's set edges are within the coordinate limit.
pub open spec fn frame_edges_bounded(frame: DocumentFrame) -> bool {
    &&& (frame.left matches Option::Some(e) ==> -crate::fix::COORD_LIMIT <= e
        <= crate::fix::COORD_LIMIT)
    &&& (frame.top matches Option::Some(e) ==> -crate::fix::COORD_LIMIT <= e
        <= crate::fix::COORD_LIMIT)
    &&& (frame.right matches Option::Some(e) ==> -crate::fix::COORD_LIMIT <= e
        <= crate::fix::COORD_LIMIT)
    &&& (frame.bottom matches Option::Some(e) ==> -crate::fix::COORD_LIMIT <= e
        <= crate::fix::COORD_LIMIT)
}

/// The frame-to-canvas offset that aligns the measured text block's
/// anchor with the frame's anchor: the difference, on each axis, between
/// the frame's anchor point and the text block's anchor point, each the
/// edge plus the alignment factor times the extent. Computed in halves
/// and rounded halves-away-from-zero.
pub open spec fn spec_layout_offset(
    canvas_width: int,
    canvas_height: int,
    frame: DocumentFrame,
    metrics: TextMetrics,
) -> (int, int) {
    let h2 = h_factor2(frame.horizontal_align);
    let v2 = v_factor2(frame.vertical_align);
    let fl = edge_or(frame.left, 0);
    let ft = edge_or(frame.top, 0);
    let fr = edge_or(frame.right, canvas_width);
    let fb = edge_or(frame.bottom, canvas_height);
    let tcx2 = 2 * metrics.left + h2 * metrics.width;
    let tcy2 = 2 * metrics.top + v2 * metrics.height;
    let fcx2 = 2 * fl + h2 * (fr - fl);
    let fcy2 = 2 * ft + v2 * (fb - ft);
    (half_round(fcx2 - tcx2), half_round(fcy2 - tcy2))
}

impl DocumentAnalyzer {
    /// Computes the frame-to-canvas offset, exactly `spec_layout_offset`.
    pub fn compute_layout_offset(
        canvas_width: i64,
        canvas_height: i64,
        frame: &DocumentFrame,
        metrics: &TextMetrics,
    ) -> (r: (i64, i64))
        requires
            0 <= canvas_width <= crate::fix::COORD_LIMIT,
            0 <= canvas_height <= crate::fix::COORD_LIMIT,
            frame_edges_bounded(*frame),
            -crate::fix::COORD_LIMIT <= metrics.left <= crate::fix::COORD_LIMIT,
            -crate::fix::COORD_LIMIT <= metrics.top <= crate::fix::COORD_LIMIT,
            -crate::fix::COORD_LIMIT <= metrics.width <= crate::fix::COORD_LIMIT,
            -crate::fix::COORD_LIMIT <= metrics.height <= crate::fix::COORD_LIMIT,
        ensures
            (r.0 as int, r.1 as int) == spec_layout_offset(
                canvas_width as int,
                canvas_height as int,
                *frame,
                *metrics,
            ),
            -8 * crate::fix::COORD_LIMIT <= r.0 <= 8 * crate::fix::COORD_LIMIT,
            -8 * crate::fix::COORD_LIMIT <= r.1 <= 8 * crate::fix::COORD_LIMIT,
    {
        let h2: i64 = match frame.horizontal_align {
            HAlign::Left => 0,
            HAlign::Center => 1,
            HAlign::Right => 2,
        };
        let v2: i64 = match frame.vertical_align {
            VAlign::Top => 0,
            VAlign::Center => 1,
            VAlign::Bottom => 2,
        };
        let fl: i64 = match frame.left {
            Option::Some(e) => e,
            Option::None => 0,
        };
        let ft: i64 = match frame.top {
            Option::Some(e) => e,
            Option::None => 0,
        };
        let fr: i64 = match frame.right {
            Option::Some(e) => e,
            Option::None => canvas_width,
        };
        let fb: i64 = match frame.bottom {
            Option::Some(e) => e,
            Option::None => canvas_height,
        };
        proof {
            let lim = crate::fix::COORD_LIMIT as int;
            assert(-2 * lim <= h2 * metrics.width <= 2 * lim) by (nonlinear_arith)
                requires
                    0 <= h2 <= 2,
                    -lim <= metrics.width <= lim,
            ;
            assert(-2 * lim <= v2 * metrics.height <= 2 * lim) by (nonlinear_arith)
                requires
                    0 <= v2 <= 2,
                    -lim <= metrics.height <= lim,
            ;
            assert(-4 * lim <= h2 * (fr - fl) <= 4 * lim) by (nonlinear_arith)
                requires
                    0 <= h2 <= 2,
                    -2 * lim <= fr - fl <= 2 * lim,
            ;
            assert(-4 * lim <= v2 * (fb - ft) <= 4 * lim) by (nonlinear_arith)
                requires
                    0 <= v2 <= 2,
                    -2 * lim <= fb - ft <= 2 * lim,
            ;
        }
        let tcx2: i64 = 2 * metrics.left + h2 * metrics.width;
        let tcy2: i64 = 2 * metrics.top + v2 * metrics.height;
        let fcx2: i64 = 2 * fl + h2 * (fr - fl);
        let fcy2: i64 = 2 * ft + v2 * (fb - ft);
        let dx = half_round_fix(fcx2 - tcx2);
        let dy = half_round_fix(fcy2 - tcy2);
        (dx, dy)
    }
}

/// Divides by two, rounding halves away from zero: exactly `half_round`.
fn half_round_fix(v: i64) -> (r: i64)
    requires
        -16 * crate::fix::COORD_LIMIT <= v <= 16 * crate::fix::COORD_LIMIT,
    ensures
        r == half_round(v as int),
        -8 * crate::fix::COORD_LIMIT <= r <= 8 * crate::fix::COORD_LIMIT,
{
    if v >= 0 {
        (v + 1) / 2
    } else {
        -((-v + 1) / 2)
    }
}

} // verus!
