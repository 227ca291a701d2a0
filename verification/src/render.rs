//! Run composition and image assembly.
//!
//! For each glyph run the layout engine delivers, the compositor resolves
//! the run's color and transform, drives the geometry sink over each
//! glyph's outline, interns the resulting path data in the shared store,
//! and records a placement for every glyph with a visible outline. The
//! document renderer assembles the shared path catalog and the per-frame
//! run groups into the final image text.

use vstd::prelude::*;
use crate::color::{rgba_hex_string, rgba_hex_text};
use crate::fix::{
    dec_seq, dec_string, fix_text, fix_to_string, micro_text, micro_to_string, quantize,
    quantize_fix, round_ratio, round_ratio_fix, COORD_LIMIT,
};
use crate::escape::{escape_str, escape_text};
use crate::sink::{cmd_ok, outline_last, outline_text, OutlineCmd, SvgGeometrySink};
use crate::store::{spec_intern, SharedStore};
use crate::style::opt_text;

verus! {

/// The most glyphs one run may carry.
pub const MAX_GLYPHS: usize = 0x10000;

/// The largest advance, in sub-units, one glyph may carry.
pub const MAX_ADVANCE: i64 = 0x100_0000;

/// One placed glyph: a path id and a run-local, pre-scale position,
/// quantized.
#[derive(Clone, Copy, Debug, PartialEq, Eq, Structural)]
pub struct SvgGlyph {
    pub path_id: usize,
    pub offset_x: i64,
    pub offset_y: i64,
}

/// The logical content of a placed glyph.
#[verifier::ext_equal]
pub ghost struct GlyphView {
    pub path_id: int,
    pub x: int,
    pub y: int,
}

impl SvgGlyph {
    /// The logical content of this placement.
    pub open spec fn view(&self) -> GlyphView {
        GlyphView { path_id: self.path_id as int, x: self.offset_x as int, y: self.offset_y as int }
    }
}

/// One composed glyph run: its transform, color, source text, and placed
/// glyphs.
pub struct SvgRun {
    /// Baseline origin plus frame offset, in sub-units.
    pub offset_x: i64,
    pub offset_y: i64,
    /// Rotation in degrees, a multiple of 90.
    pub rotate_degrees: u32,
    /// Design units per em of the run's font.
    pub upm: u32,
    /// Em size in sub-units.
    pub em_size: i64,
    /// Resolved hex color, when the run carries one.
    pub color: Option<String>,
    pub source_text: String,
    pub glyphs: Vec<SvgGlyph>,
    pub copyable: bool,
}

/// The logical content of a composed run.
#[verifier::ext_equal]
pub ghost struct RunRecView {
    pub ox: int,
    pub oy: int,
    pub rot: int,
    pub upm: int,
    pub em: int,
    pub color: Option<Seq<char>>,
    pub source: Seq<char>,
    pub glyphs: Seq<GlyphView>,
    pub copyable: bool,
}

impl SvgRun {
    /// The logical content of this run.
    pub open spec fn view(&self) -> RunRecView {
        RunRecView {
            ox: self.offset_x as int,
            oy: self.offset_y as int,
            rot: self.rotate_degrees as int,
            upm: self.upm as int,
            em: self.em_size as int,
            color: opt_text(self.color),
            source: self.source_text@,
            glyphs: self.glyphs@.map_values(|g: SvgGlyph| g@),
            copyable: self.copyable,
        }
    }

    /// Well-formed: coordinates within rendering range, a positive em
    /// size, and a positive design-unit count.
    pub open spec fn wf(&self) -> bool {
        &&& -15 * COORD_LIMIT <= self.offset_x <= 15 * COORD_LIMIT
        &&& -15 * COORD_LIMIT <= self.offset_y <= 15 * COORD_LIMIT
        &&& 1 <= self.em_size <= COORD_LIMIT
        &&& 1 <= self.upm <= 0x100_0000
        &&& forall|i: int|
            0 <= i < self.glyphs@.len() ==> -15 * COORD_LIMIT <= (#[trigger] self.glyphs@[i]).offset_x
                <= 15 * COORD_LIMIT && -15 * COORD_LIMIT <= self.glyphs@[i].offset_y <= 15
                * COORD_LIMIT
    }
}

/// One frame of the image: composed runs and accessibility metadata.
pub struct SvgFrame {
    pub runs: Vec<SvgRun>,
    pub copyable: bool,
    pub frame_title: Option<String>,
    pub frame_desc: Option<String>,
}

/// The logical content of a frame.
#[verifier::ext_equal]
pub ghost struct FrameRecView {
    pub title: Option<Seq<char>>,
    pub desc: Option<Seq<char>>,
    pub copyable: bool,
    pub runs: Seq<RunRecView>,
}

impl SvgFrame {
    /// The logical content of this frame.
    pub open spec fn view(&self) -> FrameRecView {
        FrameRecView {
            title: opt_text(self.frame_title),
            desc: opt_text(self.frame_desc),
            copyable: self.copyable,
            runs: self.runs@.map_values(|r: SvgRun| r@),
        }
    }

    /// Well-formed: every run is.
    pub open spec fn wf(&self) -> bool {
        forall|i: int| 0 <= i < self.runs@.len() ==> (#[trigger] self.runs@[i]).wf()
    }

    /// An empty frame.
    pub fn new() -> (f: SvgFrame)
        ensures
            f.wf(),
            f@.runs == Seq::<RunRecView>::empty(),
            f@.title is None,
            f@.desc is None,
            !f@.copyable,
    {
        let f = SvgFrame {
            runs: Vec::new(),
            copyable: false,
            frame_title: Option::None,
            frame_desc: Option::None,
        };
        proof {
            assert(f@.runs =~= Seq::<RunRecView>::empty());
        }
        f
    }
}

/// A glyph orientation angle, a multiple of 90 degrees.
#[derive(Clone, Copy, Debug, PartialEq, Eq, Structural)]
pub enum OrientationAngle {
    Deg0,
    Deg90,
    Deg180,
    Deg270,
}

/// The quarter-turn count of an orientation angle.
pub open spec fn quarters_of(a: OrientationAngle) -> int {
    match a {
        OrientationAngle::Deg0 => 0,
        OrientationAngle::Deg90 => 1,
        OrientationAngle::Deg180 => 2,
        OrientationAngle::Deg270 => 3,
    }
}

/// The run rotation in degrees: the orientation angle, plus one more
/// quarter turn when the run is sideways, modulo a full turn.
pub open spec fn rotation_degrees(a: OrientationAngle, is_sideways: bool) -> int {
    90 * ((quarters_of(a) + if is_sideways {
        1int
    } else {
        0int
    }) % 4)
}

/// Converts an orientation angle and sideways flag to degrees, exactly
/// `rotation_degrees`.
pub fn orientation_to_degrees(a: OrientationAngle, is_sideways: bool) -> (d: u32)
    ensures
        d == rotation_degrees(a, is_sideways),
{
    let mut quarters: u32 = match a {
        OrientationAngle::Deg0 => 0,
        OrientationAngle::Deg90 => 1,
        OrientationAngle::Deg180 => 2,
        OrientationAngle::Deg270 => 3,
    };
    if is_sideways {
        quarters = (1 + quarters) % 4;
    }
    90 * quarters
}

/// One glyph as the layout engine hands it over: its advance and its
/// outline command stream, both in design-space sub-units.
pub struct GlyphInput {
    pub advance: i64,
    pub outline: Vec<OutlineCmd>,
}

/// One glyph run as the layout engine hands it over.
pub struct GlyphRunInput {
    /// Baseline origin, in sub-units.
    pub baseline_x: i64,
    pub baseline_y: i64,
    pub orientation: OrientationAngle,
    pub is_sideways: bool,
    pub bidi_level: u32,
    /// Design units per em.
    pub upm: u32,
    /// Em size in sub-units.
    pub em_size: i64,
    /// The RGBA color the run's drawing effect carries, if any.
    pub color: Option<(u8, u8, u8, u8)>,
    pub source_text: String,
    pub glyphs: Vec<GlyphInput>,
}

impl GlyphRunInput {
    /// Well-formed: all coordinates and counts within the compositor's
    /// working ranges.
    pub open spec fn wf(&self) -> bool {
        &&& -COORD_LIMIT <= self.baseline_x <= COORD_LIMIT
        &&& -COORD_LIMIT <= self.baseline_y <= COORD_LIMIT
        &&& 1 <= self.em_size <= COORD_LIMIT
        &&& 1 <= self.upm <= 0x100_0000
        &&& self.glyphs@.len() <= MAX_GLYPHS
        &&& forall|i: int|
            0 <= i < self.glyphs@.len() ==> -MAX_ADVANCE <= (#[trigger] self.glyphs@[i]).advance
                <= MAX_ADVANCE
        &&& forall|i: int, j: int|
            0 <= i < self.glyphs@.len() && 0 <= j < (#[trigger] self.glyphs@[i]).outline@.len()
                ==> cmd_ok(#[trigger] self.glyphs@[i].outline@[j])
    }
}

/// The advance direction of a run: `-1` for an odd bidi level
/// (right-to-left), `+1` otherwise.
pub open spec fn advance_dir(bidi_level: u32) -> int {
    if bidi_level % 2 == 1 {
        -1
    } else {
        1
    }
}

/// The compositor's running state over one run's glyphs: the catalog so
/// far, the placements so far, the sink's current point, and the pen
/// position in sub-units.
#[verifier::ext_equal]
pub ghost struct ComposeState {
    pub paths: Seq<Seq<char>>,
    pub placed: Seq<GlyphView>,
    pub last: (i64, i64),
    pub pen: int,
}

/// One glyph's step: render its outline from the current point, intern
/// the path text, record a placement at the quantized pen position when
/// the path is visible (a non-zero id), and move the pen by the advance
/// in the run's direction.
pub open spec fn compose_step(st: ComposeState, g: GlyphInput, dir: int) -> ComposeState {
    let text = outline_text(st.last, g.outline@);
    let r = spec_intern(st.paths, text);
    ComposeState {
        paths: r.0,
        placed: if r.1 != 0 {
            st.placed.push(GlyphView { path_id: r.1, x: quantize(st.pen), y: 0 })
        } else {
            st.placed
        },
        last: outline_last(st.last, g.outline@),
        pen: st.pen + dir * g.advance,
    }
}

/// The compositor's state after all glyphs of a run, in order.
pub open spec fn compose_fold(st: ComposeState, glyphs: Seq<GlyphInput>, dir: int) -> ComposeState
    decreases glyphs.len(),
{
    if glyphs.len() == 0 {
        st
    } else {
        compose_fold(compose_step(st, glyphs[0], dir), glyphs.drop_first(), dir)
    }
}

/// The pen position before glyph `k`: the signed sum of the advances of
/// the glyphs before it, in the run's direction.
pub open spec fn pen_position(glyphs: Seq<GlyphInput>, bidi_level: u32, k: int) -> int
    decreases k,
{
    if k <= 0 {
        0
    } else {
        pen_position(glyphs, bidi_level, k - 1) + advance_dir(bidi_level) * glyphs[k - 1].advance
    }
}

/// Advance direction: each glyph moves the pen by exactly its advance,
/// backwards when the run's bidi level is odd and forwards when it is
/// even — so successive pen positions decrease for odd levels and
/// increase for even levels whenever the advance is positive.
pub proof fn lemma_advance_direction(glyphs: Seq<GlyphInput>, bidi_level: u32, k: int)
    requires
        0 <= k < glyphs.len(),
    ensures
        pen_position(glyphs, bidi_level, k + 1) == pen_position(glyphs, bidi_level, k)
            + advance_dir(bidi_level) * glyphs[k].advance,
        bidi_level % 2 == 1 && glyphs[k].advance > 0 ==> pen_position(glyphs, bidi_level, k + 1)
            < pen_position(glyphs, bidi_level, k),
        bidi_level % 2 == 0 && glyphs[k].advance > 0 ==> pen_position(glyphs, bidi_level, k + 1)
            > pen_position(glyphs, bidi_level, k),
{
    let dir = advance_dir(bidi_level);
    let a = glyphs[k].advance as int;
    if bidi_level % 2 == 1 {
        assert(dir * a == -a) by (nonlinear_arith)
            requires
                dir == -1,
        ;
    } else {
        assert(dir * a == a) by (nonlinear_arith)
            requires
                dir == 1,
        ;
    }
}

/// The pen threaded through `compose_fold`: after all glyphs the pen has
/// moved from its start by the signed sum of the advances.
pub proof fn lemma_fold_pen(st: ComposeState, glyphs: Seq<GlyphInput>, bidi_level: u32)
    ensures
        compose_fold(st, glyphs, advance_dir(bidi_level)).pen == st.pen + pen_position(
            glyphs,
            bidi_level,
            glyphs.len() as int,
        ),
    decreases glyphs.len(),
{
    if glyphs.len() > 0 {
        let dir = advance_dir(bidi_level);
        let st2 = compose_step(st, glyphs[0], dir);
        lemma_fold_pen(st2, glyphs.drop_first(), bidi_level);
        lemma_pen_shift(glyphs, bidi_level, glyphs.len() - 1);
    }
}

/// When every glyph of a run opens a figure (and so has a visible
/// outline), every glyph is placed, in order, at the quantized pen
/// position of its index: the signed prefix sum of the advances.
#[verifier::rlimit(100)]
#[verifier::spinoff_prover]
pub proof fn lemma_fold_placements(st: ComposeState, glyphs: Seq<GlyphInput>, bidi_level: u32)
    requires
        forall|k: int|
            0 <= k < glyphs.len() ==> (#[trigger] glyphs[k]).outline@.len() > 0
                && glyphs[k].outline@[0] is BeginFigure,
    ensures
        ({
            let stf = compose_fold(st, glyphs, advance_dir(bidi_level));
            &&& stf.placed.len() == st.placed.len() + glyphs.len()
            &&& forall|i: int| 0 <= i < st.placed.len() ==> stf.placed[i] == st.placed[i]
            &&& forall|k: int|
                0 <= k < glyphs.len() ==> stf.placed[st.placed.len() + k].x == quantize(
                    st.pen + pen_position(glyphs, bidi_level, k),
                )
        }),
    decreases glyphs.len(),
{
    if glyphs.len() > 0 {
        let dir = advance_dir(bidi_level);
        let g = glyphs[0];
        let text = outline_text(st.last, g.outline@);
        assert(text.len() > 0) by {
            assert(text == crate::sink::cmd_text(st.last, g.outline@[0]) + outline_text(
                crate::sink::cmd_last(st.last, g.outline@[0]),
                g.outline@.drop_first(),
            ));
            let c = g.outline@[0];
            assert(crate::sink::cmd_text(st.last, c).len() >= 2);
        }
        let r = spec_intern(st.paths, text);
        crate::store::lemma_intern_id_nonzero(st.paths, text);
        assert(r.1 >= 1);
        let st2 = compose_step(st, g, dir);
        assert(forall|k: int|
            0 <= k < glyphs.drop_first().len() ==> (#[trigger] glyphs.drop_first()[k]).outline@.len()
                > 0 && glyphs.drop_first()[k].outline@[0] is BeginFigure);
        lemma_fold_placements(st2, glyphs.drop_first(), bidi_level);
        let stf = compose_fold(st, glyphs, dir);
        assert forall|k: int|
            0 <= k < glyphs.len() implies stf.placed[st.placed.len() + k].x == quantize(
            st.pen + pen_position(glyphs, bidi_level, k),
        ) by {
            if k == 0 {
                assert(st2.placed[st.placed.len() as int] == GlyphView {
                    path_id: r.1,
                    x: quantize(st.pen),
                    y: 0,
                });
            } else {
                lemma_pen_shift(glyphs, bidi_level, k - 1);
                assert(stf.placed[st2.placed.len() + (k - 1)].x == quantize(
                    st2.pen + pen_position(glyphs.drop_first(), bidi_level, k - 1),
                ));
            }
        }
    }
}

proof fn lemma_pen_shift(glyphs: Seq<GlyphInput>, bidi_level: u32, k: int)
    requires
        0 <= k <= glyphs.len() - 1,
    ensures
        pen_position(glyphs, bidi_level, k + 1) == advance_dir(bidi_level) * glyphs[0].advance
            + pen_position(glyphs.drop_first(), bidi_level, k),
    decreases k,
{
    if k == 0 {
        assert(pen_position(glyphs, bidi_level, 0) == 0);
        assert(pen_position(glyphs.drop_first(), bidi_level, 0) == 0);
    } else {
        lemma_pen_shift(glyphs, bidi_level, k - 1);
        assert(glyphs.drop_first()[k - 1] == glyphs[k]);
    }
}

/// The per-frame compositor: the frame being filled and the frame's
/// caller-supplied offset, added to every run's baseline origin.
pub struct SvgFrameRenderer {
    pub offset_x: i64,
    pub offset_y: i64,
    pub frame: SvgFrame,
}

impl SvgFrameRenderer {
    /// Well-formed: the offset is within rendering range and the frame is
    /// well-formed.
    pub open spec fn wf(&self) -> bool {
        &&& -14 * COORD_LIMIT <= self.offset_x <= 14 * COORD_LIMIT
        &&& -14 * COORD_LIMIT <= self.offset_y <= 14 * COORD_LIMIT
        &&& self.frame.wf()
    }

    /// A renderer for a fresh frame with the given offset.
    pub fn new(offset_x: i64, offset_y: i64) -> (fr: SvgFrameRenderer)
        requires
            -14 * COORD_LIMIT <= offset_x <= 14 * COORD_LIMIT,
            -14 * COORD_LIMIT <= offset_y <= 14 * COORD_LIMIT,
        ensures
            fr.wf(),
            fr.offset_x == offset_x,
            fr.offset_y == offset_y,
            fr.frame@.runs == Seq::<RunRecView>::empty(),
            fr.frame@.title is None,
            fr.frame@.desc is None,
            !fr.frame@.copyable,
    {
        SvgFrameRenderer { offset_x, offset_y, frame: SvgFrame::new() }
    }

    /// Sets the frame's title metadata.
    pub fn set_title(&mut self, title: Option<String>)
        ensures
            final(self).frame@.title == opt_text(title),
            final(self).frame@.desc == old(self).frame@.desc,
            final(self).frame@.runs == old(self).frame@.runs,
            final(self).frame@.copyable == old(self).frame@.copyable,
            final(self).offset_x == old(self).offset_x,
            final(self).offset_y == old(self).offset_y,
            final(self).wf() == old(self).wf(),
    {
        self.frame.frame_title = title;
    }

    /// Sets the frame's description metadata.
    pub fn set_desc(&mut self, desc: Option<String>)
        ensures
            final(self).frame@.desc == opt_text(desc),
            final(self).frame@.title == old(self).frame@.title,
            final(self).frame@.runs == old(self).frame@.runs,
            final(self).frame@.copyable == old(self).frame@.copyable,
            final(self).offset_x == old(self).offset_x,
            final(self).offset_y == old(self).offset_y,
            final(self).wf() == old(self).wf(),
    {
        self.frame.frame_desc = desc;
    }

    /// Sets whether the frame carries a selectable text copy of each run.
    pub fn set_copyable(&mut self, copyable: bool)
        ensures
            final(self).frame@.copyable == copyable,
            final(self).frame@.title == old(self).frame@.title,
            final(self).frame@.desc == old(self).frame@.desc,
            final(self).frame@.runs == old(self).frame@.runs,
            final(self).offset_x == old(self).offset_x,
            final(self).offset_y == old(self).offset_y,
            final(self).wf() == old(self).wf(),
    {
        self.frame.copyable = copyable;
    }

    /// Composes one glyph run: resolves its color and transform, renders
    /// and interns each glyph's outline, and appends the run record. The
    /// new catalog and the placed glyphs are exactly `compose_fold` from
    /// the old catalog.
    pub fn draw_glyph_run(&mut self, store: &mut SharedStore, input: &GlyphRunInput)
        requires
            old(self).wf(),
            old(store).wf(),
            input.wf(),
            old(store).paths().len() + input.glyphs@.len() < usize::MAX,
        ensures
            final(self).wf(),
            final(store).wf(),
            ({
                let st0 = ComposeState {
                    paths: old(store).paths(),
                    placed: Seq::empty(),
                    last: (0i64, 0i64),
                    pen: 0,
                };
                let stf = compose_fold(st0, input.glyphs@, advance_dir(input.bidi_level));
                &&& final(store).paths() == stf.paths
                &&& final(self).frame@.runs == old(self).frame@.runs.push(
                    RunRecView {
                        ox: input.baseline_x + old(self).offset_x,
                        oy: input.baseline_y + old(self).offset_y,
                        rot: rotation_degrees(input.orientation, input.is_sideways),
                        upm: input.upm as int,
                        em: input.em_size as int,
                        color: match input.color {
                            Option::Some(c) => Option::Some(rgba_hex_text(c.0, c.1, c.2, c.3)),
                            Option::None => Option::None,
                        },
                        source: input.source_text@,
                        glyphs: stf.placed,
                        copyable: old(self).frame@.copyable,
                    },
                )
            }),
            final(self).frame@.title == old(self).frame@.title,
            final(self).frame@.desc == old(self).frame@.desc,
            final(self).frame@.copyable == old(self).frame@.copyable,
            final(self).offset_x == old(self).offset_x,
            final(self).offset_y == old(self).offset_y,
    {
        let color: Option<String> = match &input.color {
            Option::Some(c) => Option::Some(rgba_hex_string(c.0, c.1, c.2, c.3)),
            Option::None => Option::None,
        };
        let ghost st0 = ComposeState {
            paths: store.paths(),
            placed: Seq::empty(),
            last: (0i64, 0i64),
            pen: 0,
        };
        let ghost dir = advance_dir(input.bidi_level);
        let mut sink = SvgGeometrySink::new();
        let mut glyphs: Vec<SvgGlyph> = Vec::new();
        let mut pen: i64 = 0;
        let n = input.glyphs.len();
        proof {
            assert(input.glyphs@.skip(0) =~= input.glyphs@);
            assert(glyphs@.map_values(|g: SvgGlyph| g@) =~= Seq::<GlyphView>::empty());
        }
        let mut i: usize = 0;
        while i < n
            invariant
                n == input.glyphs@.len(),
                n <= MAX_GLYPHS,
                dir == advance_dir(input.bidi_level),
                i <= n,
                input.wf(),
                store.wf(),
                sink.wf(),
                sink.body_text() == Seq::<char>::empty(),
                st0.paths.len() + n < usize::MAX,
                store.paths().len() <= st0.paths.len() + i,
                -0x100_0000 * (i as int) <= pen <= 0x100_0000 * (i as int),
                forall|k: int|
                    0 <= k < glyphs@.len() ==> -8 * COORD_LIMIT - 2 <= (#[trigger] glyphs@[k]).offset_x
                        <= 8 * COORD_LIMIT + 2 && glyphs@[k].offset_y == 0,
                compose_fold(
                    ComposeState {
                        paths: store.paths(),
                        placed: glyphs@.map_values(|g: SvgGlyph| g@),
                        last: sink.last(),
                        pen: pen as int,
                    },
                    input.glyphs@.skip(i as int),
                    dir,
                ) == compose_fold(st0, input.glyphs@, dir),
            decreases n - i,
        {
            let ghost rest = input.glyphs@.skip(i as int);
            let ghost cur = ComposeState {
                paths: store.paths(),
                placed: glyphs@.map_values(|g: SvgGlyph| g@),
                last: sink.last(),
                pen: pen as int,
            };
            proof {
                assert(rest[0] == input.glyphs@[i as int]);
                assert(rest.drop_first() =~= input.glyphs@.skip(i + 1));
                assert(forall|j: int|
                    0 <= j < input.glyphs@[i as int].outline@.len() ==> cmd_ok(
                        #[trigger] input.glyphs@[i as int].outline@[j],
                    ));
            }
            proof {
                assert(MAX_ADVANCE == 0x100_0000);
                assert(MAX_GLYPHS == 0x10000);
                assert(-MAX_ADVANCE <= input.glyphs@[i as int].advance <= MAX_ADVANCE);
                assert(0x100_0000 * (i as int) <= 0x100_0000 * 0x10000) by (nonlinear_arith)
                    requires
                        0 <= i <= 0x10000,
                ;
                assert(0x100_0000 * (i as int + 1) <= 0x100_0000 * 0x10000) by (nonlinear_arith)
                    requires
                        0 <= i as int + 1 <= 0x10000,
                ;
                assert(-8 * COORD_LIMIT <= pen <= 8 * COORD_LIMIT);
            }
            let g = &input.glyphs[i];
            sink.consume(&g.outline);
            let path_data = sink.reset();
            let id = store.add_path_def(path_data);
            if id > 0 {
                glyphs.push(SvgGlyph { path_id: id, offset_x: quantize_fix(pen), offset_y: 0 });
            }
            if input.bidi_level % 2 == 1 {
                pen = pen - g.advance;
            } else {
                pen = pen + g.advance;
            }
            proof {
                let stepped = compose_step(cur, input.glyphs@[i as int], dir);
                if input.bidi_level % 2 == 1 {
                    assert(dir * input.glyphs@[i as int].advance == -input.glyphs@[i as int].advance)
                        by (nonlinear_arith)
                        requires
                            dir == -1,
                    ;
                } else {
                    assert(dir * input.glyphs@[i as int].advance == input.glyphs@[i as int].advance)
                        by (nonlinear_arith)
                        requires
                            dir == 1,
                    ;
                }
                if id > 0 {
                    assert(glyphs@.map_values(|g2: SvgGlyph| g2@) =~= stepped.placed);
                }
                assert(ComposeState {
                    paths: store.paths(),
                    placed: glyphs@.map_values(|g2: SvgGlyph| g2@),
                    last: sink.last(),
                    pen: pen as int,
                } =~= stepped);
            }
            i = i + 1;
        }
        proof {
            assert(input.glyphs@.skip(n as int) =~= Seq::<GlyphInput>::empty());
        }
        let ox = input.baseline_x + self.offset_x;
        let oy = input.baseline_y + self.offset_y;
        let rot = orientation_to_degrees(input.orientation, input.is_sideways);
        let run = SvgRun {
            offset_x: ox,
            offset_y: oy,
            rotate_degrees: rot,
            upm: input.upm,
            em_size: input.em_size,
            color,
            source_text: input.source_text.clone(),
            glyphs,
            copyable: self.frame.copyable,
        };
        proof {
            assert(run.wf());
        }
        self.frame.runs.push(run);
        proof {
            assert(final(self).frame@.runs =~= old(self).frame@.runs.push(run@));
            assert forall|k: int|
                0 <= k < self.frame.runs@.len() implies (#[trigger] self.frame.runs@[k]).wf() by {
                if k < self.frame.runs@.len() - 1 {
                    assert(old(self).frame.runs@[k].wf());
                }
            }
        }
    }
}

/// The scale factor of a run in millionths: the em size over the design
/// units per em, rounded to six decimal places. Glyph paths are authored
/// in design units; this uniform scale renders them at the em size.
pub open spec fn run_scale_micro(em: int, upm: int) -> int {
    round_ratio(em * 1000000, upm * 512)
}

/// The fill color of a run: its resolved color, or black.
pub open spec fn color_or_black(c: Option<Seq<char>>) -> Seq<char> {
    match c {
        Option::Some(s) => s,
        Option::None => "black"@,
    }
}

/// The element text of one placed glyph: a reference to its shared path,
/// placed by a translation.
pub open spec fn glyph_elem_text(g: GlyphView) -> Seq<char> {
    "<use href=\"#path"@ + dec_seq(g.path_id as nat) + "\" transform=\"translate("@ + fix_text(
        g.x,
    ) + " "@ + fix_text(g.y) + ")\"/>"@
}

/// The element text of a list of placed glyphs.
pub open spec fn glyphs_text(gs: Seq<GlyphView>) -> Seq<char>
    decreases gs.len(),
{
    if gs.len() == 0 {
        Seq::empty()
    } else {
        glyph_elem_text(gs[0]) + glyphs_text(gs.drop_first())
    }
}

/// The opening tag of a run group: its transform (translation, rotation,
/// inverse scale), fill color, and escaped source text.
pub open spec fn run_open_text(r: RunRecView) -> Seq<char> {
    "<g transform=\"translate("@ + fix_text(r.ox) + " "@ + fix_text(r.oy) + ") rotate("@ + dec_seq(
        r.rot as nat,
    ) + ") scale("@ + micro_text(run_scale_micro(r.em, r.upm) as nat) + ")\" fill=\""@
        + color_or_black(r.color) + "\" data-source-text=\""@ + escape_text(r.source) + "\">"@
}

/// The transparent selectable text element of a copyable run.
pub open spec fn copy_text_elem(r: RunRecView) -> Seq<char> {
    "<text x=\""@ + fix_text(r.ox) + "\" y=\""@ + fix_text(r.oy) + "\" font-size=\""@ + dec_seq(
        r.upm as nat,
    ) + "\" fill=\"transparent\">"@ + escape_text(r.source) + "</text>"@
}

/// The element text of one composed run.
pub open spec fn run_elem_text(r: RunRecView) -> Seq<char> {
    run_open_text(r) + (if r.copyable {
        copy_text_elem(r)
    } else {
        Seq::empty()
    }) + glyphs_text(r.glyphs) + "</g>"@
}

/// The element text of a list of runs.
pub open spec fn runs_text(rs: Seq<RunRecView>) -> Seq<char>
    decreases rs.len(),
{
    if rs.len() == 0 {
        Seq::empty()
    } else {
        run_elem_text(rs[0]) + runs_text(rs.drop_first())
    }
}

/// The title element of a frame, when it has one.
pub open spec fn title_text(t: Option<Seq<char>>) -> Seq<char> {
    match t {
        Option::Some(s) => "<title>"@ + escape_text(s) + "</title>"@,
        Option::None => Seq::empty(),
    }
}

/// The description element of a frame, when it has one.
pub open spec fn desc_text(t: Option<Seq<char>>) -> Seq<char> {
    match t {
        Option::Some(s) => "<desc>"@ + escape_text(s) + "</desc>"@,
        Option::None => Seq::empty(),
    }
}

/// The element text of one frame: a group holding its metadata and runs.
pub open spec fn frame_elem_text(f: FrameRecView) -> Seq<char> {
    "<g>"@ + title_text(f.title) + desc_text(f.desc) + runs_text(f.runs) + "</g>"@
}

/// The element text of a list of frames.
pub open spec fn frames_text(fs: Seq<FrameRecView>) -> Seq<char>
    decreases fs.len(),
{
    if fs.len() == 0 {
        Seq::empty()
    } else {
        frame_elem_text(fs[0]) + frames_text(fs.drop_first())
    }
}

/// The element text of one shared path definition with its 1-based id.
pub open spec fn path_def_text(p: Seq<char>, id: int) -> Seq<char> {
    "<path id=\"path"@ + dec_seq(id as nat) + "\" d=\""@ + p + "\"/>"@
}

/// The element text of the path catalog from position `k` on; the id of
/// the path at position `k` is `k + 1`.
pub open spec fn defs_text(paths: Seq<Seq<char>>, k: int) -> Seq<char>
    decreases paths.len() - k,
{
    if k < 0 || k >= paths.len() {
        Seq::empty()
    } else {
        path_def_text(paths[k], k + 1) + defs_text(paths, k + 1)
    }
}

/// The logical content of a composed document.
#[verifier::ext_equal]
pub ghost struct DocView {
    pub width: int,
    pub height: int,
    pub paths: Seq<Seq<char>>,
    pub frames: Seq<FrameRecView>,
}

/// The whole image text: the root element with the canvas size, the
/// shared path catalog, and one group per frame.
pub open spec fn document_text(d: DocView) -> Seq<char> {
    "<svg xmlns=\"http://www.w3.org/2000/svg\" viewBox=\"0 0 "@ + fix_text(d.width) + " "@
        + fix_text(d.height) + "\" width=\""@ + fix_text(d.width) + "\" height=\""@ + fix_text(
        d.height,
    ) + "\"><defs>"@ + defs_text(d.paths, 0) + "</defs>"@ + frames_text(d.frames) + "</svg>"@
}

/// Appends the element text of one placed glyph.
fn render_glyph(out: &mut String, g: &SvgGlyph)
    requires
        -15 * COORD_LIMIT <= g.offset_x <= 15 * COORD_LIMIT,
        -15 * COORD_LIMIT <= g.offset_y <= 15 * COORD_LIMIT,
    ensures
        final(out)@ == old(out)@ + glyph_elem_text(g@),
{
    out.append("<use href=\"#path");
    let ds = dec_string(g.path_id as u64);
    out.append(ds.as_str());
    out.append("\" transform=\"translate(");
    let xs = fix_to_string(g.offset_x);
    out.append(xs.as_str());
    out.append(" ");
    let ys = fix_to_string(g.offset_y);
    out.append(ys.as_str());
    out.append(")\"/>");
    proof {
        assert(final(out)@ =~= old(out)@ + glyph_elem_text(g@));
    }
}

/// Appends the element text of one composed run.
#[verifier::rlimit(100)]
fn render_run(out: &mut String, r: &SvgRun)
    requires
        r.wf(),
    ensures
        final(out)@ == old(out)@ + run_elem_text(r@),
{
    out.append("<g transform=\"translate(");
    let xs = fix_to_string(r.offset_x);
    out.append(xs.as_str());
    out.append(" ");
    let ys = fix_to_string(r.offset_y);
    out.append(ys.as_str());
    out.append(") rotate(");
    let rs = dec_string(r.rotate_degrees as u64);
    out.append(rs.as_str());
    out.append(") scale(");
    let micro = round_ratio_fix(r.em_size * 1000000, (r.upm as i64) * 512);
    let ms = micro_to_string(micro as u64);
    out.append(ms.as_str());
    out.append(")\" fill=\"");
    match &r.color {
        Option::Some(c) => out.append(c.as_str()),
        Option::None => out.append("black"),
    }
    out.append("\" data-source-text=\"");
    let esc = escape_str(r.source_text.as_str());
    out.append(esc.as_str());
    out.append("\">");
    proof {
        assert(out@ =~= old(out)@ + run_open_text(r@));
    }
    if r.copyable {
        let ghost pre = out@;
        out.append("<text x=\"");
        let cx = fix_to_string(r.offset_x);
        out.append(cx.as_str());
        out.append("\" y=\"");
        let cy = fix_to_string(r.offset_y);
        out.append(cy.as_str());
        out.append("\" font-size=\"");
        let us = dec_string(r.upm as u64);
        out.append(us.as_str());
        out.append("\" fill=\"transparent\">");
        let esc2 = escape_str(r.source_text.as_str());
        out.append(esc2.as_str());
        out.append("</text>");
        proof {
            assert(out@ =~= pre + copy_text_elem(r@));
        }
    }
    let ghost mid = out@;
    let ghost gs = r.glyphs@.map_values(|g: SvgGlyph| g@);
    proof {
        assert(gs.skip(0) =~= gs);
    }
    let n = r.glyphs.len();
    let mut i: usize = 0;
    while i < n
        invariant
            n == r.glyphs@.len(),
            i <= n,
            gs == r.glyphs@.map_values(|g: SvgGlyph| g@),
            r.wf(),
            out@ + glyphs_text(gs.skip(i as int)) == mid + glyphs_text(gs),
        decreases n - i,
    {
        proof {
            assert(gs.skip(i as int)[0] == gs[i as int]);
            assert(gs.skip(i as int).drop_first() =~= gs.skip(i + 1));
        }
        render_glyph(out, &r.glyphs[i]);
        proof {
            assert(out@ + glyphs_text(gs.skip(i + 1)) =~= mid + glyphs_text(gs));
        }
        i = i + 1;
    }
    proof {
        assert(gs.skip(n as int) =~= Seq::<GlyphView>::empty());
    }
    out.append("</g>");
    proof {
        assert(final(out)@ =~= old(out)@ + run_elem_text(r@));
    }
}

/// Appends the element text of one frame.
#[verifier::rlimit(100)]
fn render_frame(out: &mut String, f: &SvgFrame)
    requires
        f.wf(),
    ensures
        final(out)@ == old(out)@ + frame_elem_text(f@),
{
    out.append("<g>");
    match &f.frame_title {
        Option::Some(t) => {
            out.append("<title>");
            let esc = escape_str(t.as_str());
            out.append(esc.as_str());
            out.append("</title>");
        },
        Option::None => {},
    }
    match &f.frame_desc {
        Option::Some(t) => {
            out.append("<desc>");
            let esc = escape_str(t.as_str());
            out.append(esc.as_str());
            out.append("</desc>");
        },
        Option::None => {},
    }
    proof {
        assert(out@ =~= old(out)@ + "<g>"@ + title_text(f@.title) + desc_text(f@.desc));
    }
    let ghost mid = out@;
    let ghost rs = f.runs@.map_values(|r: SvgRun| r@);
    proof {
        assert(rs.skip(0) =~= rs);
    }
    let n = f.runs.len();
    let mut i: usize = 0;
    while i < n
        invariant
            n == f.runs@.len(),
            i <= n,
            rs == f.runs@.map_values(|r: SvgRun| r@),
            f.wf(),
            out@ + runs_text(rs.skip(i as int)) == mid + runs_text(rs),
        decreases n - i,
    {
        proof {
            assert(rs.skip(i as int)[0] == rs[i as int]);
            assert(rs.skip(i as int).drop_first() =~= rs.skip(i + 1));
            assert(f.runs@[i as int].wf());
        }
        render_run(out, &f.runs[i]);
        proof {
            assert(out@ + runs_text(rs.skip(i + 1)) =~= mid + runs_text(rs));
        }
        i = i + 1;
    }
    proof {
        assert(rs.skip(n as int) =~= Seq::<RunRecView>::empty());
    }
    out.append("</g>");
    proof {
        assert(final(out)@ =~= old(out)@ + frame_elem_text(f@));
    }
}

/// The whole-document renderer: the canvas, the shared path store, and
/// the composed frames.
pub struct SvgDocumentRenderer {
    pub canvas_width: i64,
    pub canvas_height: i64,
    pub store: SharedStore,
    pub frames: Vec<SvgFrame>,
}

impl SvgDocumentRenderer {
    /// The logical content of this document.
    pub open spec fn view(&self) -> DocView {
        DocView {
            width: self.canvas_width as int,
            height: self.canvas_height as int,
            paths: self.store.paths(),
            frames: self.frames@.map_values(|f: SvgFrame| f@),
        }
    }

    /// Well-formed: the canvas is within range, the store and every
    /// frame are well-formed.
    pub open spec fn wf(&self) -> bool {
        &&& 0 <= self.canvas_width <= COORD_LIMIT
        &&& 0 <= self.canvas_height <= COORD_LIMIT
        &&& self.store.wf()
        &&& forall|i: int| 0 <= i < self.frames@.len() ==> (#[trigger] self.frames@[i]).wf()
    }

    /// A fresh document with an empty catalog and no frames.
    pub fn new(canvas_width: i64, canvas_height: i64) -> (d: SvgDocumentRenderer)
        requires
            0 <= canvas_width <= COORD_LIMIT,
            0 <= canvas_height <= COORD_LIMIT,
        ensures
            d.wf(),
            d@.width == canvas_width,
            d@.height == canvas_height,
            d@.paths == Seq::<Seq<char>>::empty(),
            d@.frames == Seq::<FrameRecView>::empty(),
    {
        let d = SvgDocumentRenderer {
            canvas_width,
            canvas_height,
            store: SharedStore::new(),
            frames: Vec::new(),
        };
        proof {
            assert(d@.frames =~= Seq::<FrameRecView>::empty());
        }
        d
    }

    /// Appends a finished frame to the document.
    pub fn push_frame(&mut self, fr: SvgFrameRenderer)
        requires
            old(self).wf(),
            fr.wf(),
        ensures
            final(self).wf(),
            final(self)@.frames == old(self)@.frames.push(fr.frame@),
            final(self)@.width == old(self)@.width,
            final(self)@.height == old(self)@.height,
            final(self)@.paths == old(self)@.paths,
    {
        let SvgFrameRenderer { offset_x: _, offset_y: _, frame } = fr;
        self.frames.push(frame);
        proof {
            assert(final(self)@.frames =~= old(self)@.frames.push(fr.frame@));
            assert forall|i: int|
                0 <= i < self.frames@.len() implies (#[trigger] self.frames@[i]).wf() by {
                if i < self.frames@.len() - 1 {
                    assert(old(self).frames@[i].wf());
                }
            }
        }
    }

    /// Renders the whole document, exactly `document_text` of its
    /// content.
    pub fn into_xml(&self) -> (out: String)
        requires
            self.wf(),
        ensures
            out@ == document_text(self@),
    {
        let mut out = String::new();
        out.append("<svg xmlns=\"http://www.w3.org/2000/svg\" viewBox=\"0 0 ");
        let ws = fix_to_string(self.canvas_width);
        out.append(ws.as_str());
        out.append(" ");
        let hs = fix_to_string(self.canvas_height);
        out.append(hs.as_str());
        out.append("\" width=\"");
        let ws2 = fix_to_string(self.canvas_width);
        out.append(ws2.as_str());
        out.append("\" height=\"");
        let hs2 = fix_to_string(self.canvas_height);
        out.append(hs2.as_str());
        out.append("\"><defs>");
        let ghost head = out@;
        let ghost paths = self.store.paths();
        let entries = self.store.entries_vec();
        let n = entries.len();
        proof {
            assert(n == paths.len());
        }
        let mut i: usize = 0;
        while i < n
            invariant
                self.wf(),
                paths == self.store.paths(),
                n == entries@.len(),
                n == paths.len(),
                i <= n,
                forall|k: int|
                    0 <= k < entries@.len() ==> ((#[trigger] entries@[k]).0@, entries@[k].1)
                        == self.store.entries()[k],
                out@ + defs_text(paths, i as int) == head + defs_text(paths, 0),
            decreases n - i,
        {
            proof {
                self.store.lemma_ids();
                assert(self.store.entries()[i as int].1 == i + 1);
                assert(paths[i as int] == self.store.entries()[i as int].0);
            }
            out.append("<path id=\"path");
            let ds = dec_string(entries[i].1 as u64);
            out.append(ds.as_str());
            out.append("\" d=\"");
            out.append(entries[i].0.as_str());
            out.append("\"/>");
            proof {
                assert(out@ + defs_text(paths, i + 1) =~= head + defs_text(paths, 0));
            }
            i = i + 1;
        }
        out.append("</defs>");
        let ghost mid = out@;
        let ghost fs = self.frames@.map_values(|f: SvgFrame| f@);
        proof {
            assert(fs.skip(0) =~= fs);
        }
        let m = self.frames.len();
        let mut j: usize = 0;
        while j < m
            invariant
                self.wf(),
                m == self.frames@.len(),
                j <= m,
                fs == self.frames@.map_values(|f: SvgFrame| f@),
                out@ + frames_text(fs.skip(j as int)) == mid + frames_text(fs),
            decreases m - j,
        {
            proof {
                assert(fs.skip(j as int)[0] == fs[j as int]);
                assert(fs.skip(j as int).drop_first() =~= fs.skip(j + 1));
                assert(self.frames@[j as int].wf());
            }
            render_frame(&mut out, &self.frames[j]);
            proof {
                assert(out@ + frames_text(fs.skip(j + 1)) =~= mid + frames_text(fs));
            }
            j = j + 1;
        }
        proof {
            assert(fs.skip(m as int) =~= Seq::<FrameRecView>::empty());
        }
        out.append("</svg>");
        proof {
            assert(out@ =~= document_text(self@));
        }
        out
    }
}

} // verus!
