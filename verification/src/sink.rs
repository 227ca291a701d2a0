//! The geometry sink: turns per-glyph outline commands into path-data
//! text.
//!
//! The engine emits, per glyph, a figure-structured stream of commands;
//! the sink accumulates path-data text and tracks the current point. All
//! input coordinates are in sub-units of a design unit, already scaled
//! but not yet quantized; every emitted coordinate is quantized to the
//! output quantum (1/256 unit), halves away from zero. The tolerance test
//! of the quadratic-simplification heuristic runs in this same scaled,
//! unquantized coordinate space.

use vstd::prelude::*;
use crate::fix::{fix_text, fix_to_string, push_char, quantize, quantize_fix, COORD_LIMIT, QUANTUM};

verus! {

/// One cubic segment: two control points and an endpoint, relative to
/// the current point as its start.
#[derive(Clone, Copy, Debug, PartialEq, Eq, Structural)]
pub struct BezierSegment {
    pub x1: i64,
    pub y1: i64,
    pub x2: i64,
    pub y2: i64,
    pub x3: i64,
    pub y3: i64,
}

/// One outline command of the engine's per-glyph stream.
pub enum OutlineCmd {
    /// Opens a figure at a point.
    BeginFigure(i64, i64),
    /// Straight segments through each point in turn.
    AddLines(Vec<(i64, i64)>),
    /// Cubic segments, each starting at the current point.
    AddBeziers(Vec<BezierSegment>),
    /// Closes the figure (a closed figure gets a close-path marker).
    EndFigure(bool),
}

/// Whether a coordinate is within the sink's working range.
pub open spec fn coord_ok(v: i64) -> bool {
    -COORD_LIMIT <= v <= COORD_LIMIT
}

/// A quantized coordinate pair as path text: the two values separated
/// and followed by single spaces.
pub open spec fn point_text(x: int, y: int) -> Seq<char> {
    fix_text(x) + seq![' '] + fix_text(y) + seq![' ']
}

/// The text of a figure opening.
pub open spec fn begin_text(x: i64, y: i64) -> Seq<char> {
    seq!['M', ' '] + point_text(quantize(x as int), quantize(y as int))
}

/// The text of one straight segment.
pub open spec fn line_text(p: (i64, i64)) -> Seq<char> {
    seq!['L', ' '] + point_text(quantize(p.0 as int), quantize(p.1 as int))
}

/// The text of a run of straight segments.
pub open spec fn lines_text(pts: Seq<(i64, i64)>) -> Seq<char>
    decreases pts.len(),
{
    if pts.len() == 0 {
        Seq::empty()
    } else {
        line_text(pts[0]) + lines_text(pts.drop_first())
    }
}

/// The doubled quadratic control point implied by a cubic's first
/// control point: `2 * (p0 + 1.5 (p1 - p0))`, exact in sub-units.
pub open spec fn implied_ctrl2(p0: int, p1: int) -> int {
    2 * p0 + 3 * (p1 - p0)
}

/// Whether a cubic starting at `(x0, y0)` is near-quadratic: its two
/// implied quadratic control points lie strictly within one output
/// quantum of each other on both axes.
pub open spec fn is_near_quad(x0: i64, y0: i64, seg: BezierSegment) -> bool {
    let dx = implied_ctrl2(seg.x3 as int, seg.x2 as int) - implied_ctrl2(x0 as int, seg.x1 as int);
    let dy = implied_ctrl2(seg.y3 as int, seg.y2 as int) - implied_ctrl2(y0 as int, seg.y1 as int);
    &&& -2 * QUANTUM < dx < 2 * QUANTUM
    &&& -2 * QUANTUM < dy < 2 * QUANTUM
}

/// The midpoint of the two implied control points, quantized to the
/// output quantum, halves away from zero. The argument is the sum of the
/// two doubled control points, i.e. the midpoint in quarter sub-units.
pub open spec fn quantize_quarter(v4: int) -> int {
    if v4 >= 0 {
        QUANTUM * ((v4 + 2 * QUANTUM) / (4 * QUANTUM))
    } else {
        QUANTUM * -((-v4 + 2 * QUANTUM) / (4 * QUANTUM))
    }
}

/// The text of one cubic segment starting at `(x0, y0)`: a single
/// quadratic command through the implied control points' midpoint when
/// the segment is near-quadratic, else the full cubic command.
pub open spec fn bezier_text(x0: i64, y0: i64, seg: BezierSegment) -> Seq<char> {
    if is_near_quad(x0, y0, seg) {
        let mx4 = implied_ctrl2(x0 as int, seg.x1 as int) + implied_ctrl2(
            seg.x3 as int,
            seg.x2 as int,
        );
        let my4 = implied_ctrl2(y0 as int, seg.y1 as int) + implied_ctrl2(
            seg.y3 as int,
            seg.y2 as int,
        );
        seq!['Q', ' '] + point_text(quantize_quarter(mx4), quantize_quarter(my4)) + point_text(
            quantize(seg.x3 as int),
            quantize(seg.y3 as int),
        )
    } else {
        seq!['C', ' '] + point_text(quantize(seg.x1 as int), quantize(seg.y1 as int)) + point_text(
            quantize(seg.x2 as int),
            quantize(seg.y2 as int),
        ) + point_text(quantize(seg.x3 as int), quantize(seg.y3 as int))
    }
}

/// The text of a run of cubic segments, threading the current point.
pub open spec fn beziers_text(x0: i64, y0: i64, segs: Seq<BezierSegment>) -> Seq<char>
    decreases segs.len(),
{
    if segs.len() == 0 {
        Seq::empty()
    } else {
        bezier_text(x0, y0, segs[0]) + beziers_text(segs[0].x3, segs[0].y3, segs.drop_first())
    }
}

/// The text of a figure ending.
pub open spec fn end_text(closed: bool) -> Seq<char> {
    if closed {
        seq!['Z', ' ']
    } else {
        Seq::empty()
    }
}

/// The text one command appends, given the current point.
pub open spec fn cmd_text(last: (i64, i64), cmd: OutlineCmd) -> Seq<char> {
    match cmd {
        OutlineCmd::BeginFigure(x, y) => begin_text(x, y),
        OutlineCmd::AddLines(pts) => lines_text(pts@),
        OutlineCmd::AddBeziers(segs) => beziers_text(last.0, last.1, segs@),
        OutlineCmd::EndFigure(closed) => end_text(closed),
    }
}

/// The current point after one command.
pub open spec fn cmd_last(last: (i64, i64), cmd: OutlineCmd) -> (i64, i64) {
    match cmd {
        OutlineCmd::BeginFigure(x, y) => (x, y),
        OutlineCmd::AddLines(pts) => if pts@.len() > 0 {
            pts@.last()
        } else {
            last
        },
        OutlineCmd::AddBeziers(segs) => if segs@.len() > 0 {
            (segs@.last().x3, segs@.last().y3)
        } else {
            last
        },
        OutlineCmd::EndFigure(_) => last,
    }
}

/// The text a whole command stream appends, given the current point.
pub open spec fn outline_text(last: (i64, i64), cmds: Seq<OutlineCmd>) -> Seq<char>
    decreases cmds.len(),
{
    if cmds.len() == 0 {
        Seq::empty()
    } else {
        cmd_text(last, cmds[0]) + outline_text(cmd_last(last, cmds[0]), cmds.drop_first())
    }
}

/// The current point after a whole command stream.
pub open spec fn outline_last(last: (i64, i64), cmds: Seq<OutlineCmd>) -> (i64, i64)
    decreases cmds.len(),
{
    if cmds.len() == 0 {
        last
    } else {
        outline_last(cmd_last(last, cmds[0]), cmds.drop_first())
    }
}

/// Whether every coordinate in a command is within the working range.
pub open spec fn cmd_ok(cmd: OutlineCmd) -> bool {
    match cmd {
        OutlineCmd::BeginFigure(x, y) => coord_ok(x) && coord_ok(y),
        OutlineCmd::AddLines(pts) => forall|i: int|
            0 <= i < pts@.len() ==> coord_ok((#[trigger] pts@[i]).0) && coord_ok(pts@[i].1),
        OutlineCmd::AddBeziers(segs) => forall|i: int|
            0 <= i < segs@.len() ==> coord_ok((#[trigger] segs@[i]).x1) && coord_ok(segs@[i].y1)
                && coord_ok(segs@[i].x2) && coord_ok(segs@[i].y2) && coord_ok(segs@[i].x3)
                && coord_ok(segs@[i].y3),
        OutlineCmd::EndFigure(_) => true,
    }
}

/// The geometry sink: accumulated path-data text and the current point.
pub struct SvgGeometrySink {
    body: String,
    last_x: i64,
    last_y: i64,
}

impl SvgGeometrySink {
    /// The path-data text accumulated so far.
    pub closed spec fn body_text(&self) -> Seq<char> {
        self.body@
    }

    /// The current point.
    pub closed spec fn last(&self) -> (i64, i64) {
        (self.last_x, self.last_y)
    }

    /// Well-formed: the current point is within the working range.
    pub closed spec fn wf(&self) -> bool {
        coord_ok(self.last_x) && coord_ok(self.last_y)
    }

    /// A fresh sink: no text, current point at the origin.
    pub fn new() -> (s: SvgGeometrySink)
        ensures
            s.wf(),
            s.body_text() == Seq::<char>::empty(),
            s.last() == (0i64, 0i64),
    {
        SvgGeometrySink { body: String::new(), last_x: 0, last_y: 0 }
    }

    /// Takes the accumulated text out, leaving the sink's text empty.
    pub fn reset(&mut self) -> (out: String)
        ensures
            out@ == old(self).body_text(),
            final(self).body_text() == Seq::<char>::empty(),
            final(self).last() == old(self).last(),
            final(self).wf() == old(self).wf(),
    {
        let out = self.body.clone();
        self.body = String::new();
        out
    }

    /// Appends one quantized coordinate pair.
    fn push_point(&mut self, x: i64, y: i64)
        requires
            coord_ok(x),
            coord_ok(y),
        ensures
            final(self).body_text() == old(self).body_text() + point_text(
                quantize(x as int),
                quantize(y as int),
            ),
            final(self).last() == old(self).last(),
            final(self).wf() == old(self).wf(),
    {
        let qx = quantize_fix(x);
        let s = fix_to_string(qx);
        self.body.append(s.as_str());
        push_char(&mut self.body, ' ');
        let qy = quantize_fix(y);
        let t = fix_to_string(qy);
        self.body.append(t.as_str());
        push_char(&mut self.body, ' ');
        proof {
            assert(final(self).body_text() =~= old(self).body_text() + point_text(
                quantize(x as int),
                quantize(y as int),
            ));
        }
    }

    /// Opens a figure: emits the move command and sets the current point.
    pub fn begin_figure(&mut self, x: i64, y: i64)
        requires
            coord_ok(x),
            coord_ok(y),
        ensures
            final(self).body_text() == old(self).body_text() + begin_text(x, y),
            final(self).last() == (x, y),
            final(self).wf(),
    {
        push_char(&mut self.body, 'M');
        push_char(&mut self.body, ' ');
        self.push_point(x, y);
        self.last_x = x;
        self.last_y = y;
        proof {
            assert(final(self).body_text() =~= old(self).body_text() + begin_text(x, y));
        }
    }

    /// Emits one straight segment per point, moving the current point to
    /// the last one.
    pub fn add_lines(&mut self, pts: &Vec<(i64, i64)>)
        requires
            old(self).wf(),
            forall|i: int|
                0 <= i < pts@.len() ==> coord_ok((#[trigger] pts@[i]).0) && coord_ok(pts@[i].1),
        ensures
            final(self).body_text() == old(self).body_text() + lines_text(pts@),
            final(self).last() == cmd_last(old(self).last(), OutlineCmd::AddLines(*pts)),
            final(self).wf(),
    {
        let ghost base = self.body@;
        let ghost all = pts@;
        proof {
            assert(all.skip(0) =~= all);
        }
        let n = pts.len();
        let mut i: usize = 0;
        while i < n
            invariant
                n == all.len(),
                i <= n,
                all == pts@,
                forall|k: int|
                    0 <= k < all.len() ==> coord_ok((#[trigger] all[k]).0) && coord_ok(all[k].1),
                self.body@ + lines_text(all.skip(i as int)) == base + lines_text(all),
                i > 0 ==> (self.last_x, self.last_y) == all[i - 1],
                i == 0 ==> (self.last_x, self.last_y) == old(self).last(),
                coord_ok(self.last_x) && coord_ok(self.last_y),
            decreases n - i,
        {
            let (x, y) = pts[i];
            proof {
                assert(all.skip(i as int)[0] == all[i as int]);
                assert(all.skip(i as int).drop_first() =~= all.skip(i + 1));
            }
            push_char(&mut self.body, 'L');
            push_char(&mut self.body, ' ');
            self.push_point(x, y);
            self.last_x = x;
            self.last_y = y;
            proof {
                assert(self.body@ + lines_text(all.skip(i + 1)) =~= base + lines_text(all));
            }
            i = i + 1;
        }
        proof {
            assert(all.skip(n as int) =~= Seq::<(i64, i64)>::empty());
            assert(self.body@ =~= base + lines_text(all));
        }
    }

    /// Emits one cubic segment starting at the current point, collapsing
    /// it to a quadratic when it is near-quadratic.
    #[verifier::rlimit(50)]
    fn push_bezier(&mut self, seg: BezierSegment)
        requires
            old(self).wf(),
            coord_ok(seg.x1) && coord_ok(seg.y1) && coord_ok(seg.x2) && coord_ok(seg.y2)
                && coord_ok(seg.x3) && coord_ok(seg.y3),
        ensures
            final(self).body_text() == old(self).body_text() + bezier_text(
                old(self).last().0,
                old(self).last().1,
                seg,
            ),
            final(self).last() == old(self).last(),
            final(self).wf(),
    {
        let x0 = self.last_x;
        let y0 = self.last_y;
        let m1x: i64 = 2 * x0 + 3 * (seg.x1 - x0);
        let m1y: i64 = 2 * y0 + 3 * (seg.y1 - y0);
        let m2x: i64 = 2 * seg.x3 + 3 * (seg.x2 - seg.x3);
        let m2y: i64 = 2 * seg.y3 + 3 * (seg.y2 - seg.y3);
        let near = m2x - m1x < 2 * QUANTUM && m1x - m2x < 2 * QUANTUM && m2y - m1y < 2 * QUANTUM
            && m1y - m2y < 2 * QUANTUM;
        proof {
            assert(near == is_near_quad(x0, y0, seg));
        }
        if near {
            push_char(&mut self.body, 'Q');
            push_char(&mut self.body, ' ');
            let mqx = quantize_quarter_fix(m1x + m2x);
            let mqy = quantize_quarter_fix(m1y + m2y);
            let sx = fix_to_string(mqx);
            self.body.append(sx.as_str());
            push_char(&mut self.body, ' ');
            let sy = fix_to_string(mqy);
            self.body.append(sy.as_str());
            push_char(&mut self.body, ' ');
            self.push_point(seg.x3, seg.y3);
            proof {
                assert(final(self).body_text() =~= old(self).body_text() + bezier_text(
                    x0,
                    y0,
                    seg,
                ));
            }
        } else {
            push_char(&mut self.body, 'C');
            push_char(&mut self.body, ' ');
            self.push_point(seg.x1, seg.y1);
            self.push_point(seg.x2, seg.y2);
            self.push_point(seg.x3, seg.y3);
            proof {
                assert(final(self).body_text() =~= old(self).body_text() + bezier_text(
                    x0,
                    y0,
                    seg,
                ));
            }
        }
    }

    /// Emits each cubic segment, collapsing near-quadratics, moving the
    /// current point to the last endpoint.
    pub fn add_beziers(&mut self, segs: &Vec<BezierSegment>)
        requires
            old(self).wf(),
            forall|i: int|
                0 <= i < segs@.len() ==> coord_ok((#[trigger] segs@[i]).x1) && coord_ok(
                    segs@[i].y1,
                ) && coord_ok(segs@[i].x2) && coord_ok(segs@[i].y2) && coord_ok(segs@[i].x3)
                    && coord_ok(segs@[i].y3),
        ensures
            final(self).body_text() == old(self).body_text() + beziers_text(
                old(self).last().0,
                old(self).last().1,
                segs@,
            ),
            final(self).last() == cmd_last(old(self).last(), OutlineCmd::AddBeziers(*segs)),
            final(self).wf(),
    {
        let ghost base = self.body@;
        let ghost all = segs@;
        let ghost l0 = old(self).last();
        proof {
            assert(all.skip(0) =~= all);
        }
        let n = segs.len();
        let mut i: usize = 0;
        while i < n
            invariant
                n == all.len(),
                i <= n,
                all == segs@,
                forall|k: int|
                    0 <= k < all.len() ==> coord_ok((#[trigger] all[k]).x1) && coord_ok(all[k].y1)
                        && coord_ok(all[k].x2) && coord_ok(all[k].y2) && coord_ok(all[k].x3)
                        && coord_ok(all[k].y3),
                self.body@ + beziers_text(self.last_x, self.last_y, all.skip(i as int)) == base
                    + beziers_text(l0.0, l0.1, all),
                i > 0 ==> (self.last_x, self.last_y) == (all[i - 1].x3, all[i - 1].y3),
                i == 0 ==> (self.last_x, self.last_y) == l0,
                coord_ok(self.last_x) && coord_ok(self.last_y),
            decreases n - i,
        {
            let seg = segs[i];
            proof {
                assert(all.skip(i as int)[0] == all[i as int]);
                assert(all.skip(i as int).drop_first() =~= all.skip(i + 1));
            }
            self.push_bezier(seg);
            self.last_x = seg.x3;
            self.last_y = seg.y3;
            proof {
                assert(self.body@ + beziers_text(self.last_x, self.last_y, all.skip(i + 1))
                    =~= base + beziers_text(l0.0, l0.1, all));
            }
            i = i + 1;
        }
        proof {
            assert(all.skip(n as int) =~= Seq::<BezierSegment>::empty());
            assert(self.body@ =~= base + beziers_text(l0.0, l0.1, all));
        }
    }

    /// Ends a figure: a closed figure gets a close-path marker.
    pub fn end_figure(&mut self, closed: bool)
        ensures
            final(self).body_text() == old(self).body_text() + end_text(closed),
            final(self).last() == old(self).last(),
            final(self).wf() == old(self).wf(),
    {
        if closed {
            push_char(&mut self.body, 'Z');
            push_char(&mut self.body, ' ');
            proof {
                assert(final(self).body_text() =~= old(self).body_text() + end_text(closed));
            }
        }
    }

    /// Absorbs a whole command stream in order.
    pub fn consume(&mut self, cmds: &Vec<OutlineCmd>)
        requires
            old(self).wf(),
            forall|i: int| 0 <= i < cmds@.len() ==> cmd_ok(#[trigger] cmds@[i]),
        ensures
            final(self).body_text() == old(self).body_text() + outline_text(
                old(self).last(),
                cmds@,
            ),
            final(self).last() == outline_last(old(self).last(), cmds@),
            final(self).wf(),
    {
        let ghost base = self.body@;
        let ghost all = cmds@;
        let ghost l0 = old(self).last();
        proof {
            assert(all.skip(0) =~= all);
        }
        let n = cmds.len();
        let mut i: usize = 0;
        while i < n
            invariant
                n == all.len(),
                i <= n,
                all == cmds@,
                forall|k: int| 0 <= k < all.len() ==> cmd_ok(#[trigger] all[k]),
                self.body@ + outline_text((self.last_x, self.last_y), all.skip(i as int)) == base
                    + outline_text(l0, all),
                outline_last((self.last_x, self.last_y), all.skip(i as int)) == outline_last(
                    l0,
                    all,
                ),
                self.wf(),
            decreases n - i,
        {
            proof {
                assert(all.skip(i as int)[0] == all[i as int]);
                assert(all.skip(i as int).drop_first() =~= all.skip(i + 1));
            }
            let ghost pre_last = (self.last_x, self.last_y);
            match &cmds[i] {
                OutlineCmd::BeginFigure(x, y) => {
                    self.begin_figure(*x, *y);
                },
                OutlineCmd::AddLines(pts) => {
                    self.add_lines(pts);
                },
                OutlineCmd::AddBeziers(segs) => {
                    self.add_beziers(segs);
                },
                OutlineCmd::EndFigure(closed) => {
                    self.end_figure(*closed);
                },
            }
            proof {
                assert((self.last_x, self.last_y) == cmd_last(pre_last, all[i as int]));
                assert(self.body@ + outline_text((self.last_x, self.last_y), all.skip(i + 1))
                    =~= base + outline_text(l0, all));
            }
            i = i + 1;
        }
        proof {
            assert(all.skip(n as int) =~= Seq::<OutlineCmd>::empty());
            assert(self.body@ =~= base + outline_text(l0, all));
        }
    }
}

/// Quantizes a quarter-sub-unit value to the output quantum, exactly
/// `quantize_quarter`.
fn quantize_quarter_fix(v4: i64) -> (r: i64)
    requires
        -16 * COORD_LIMIT <= v4 <= 16 * COORD_LIMIT,
    ensures
        r == quantize_quarter(v4 as int),
{
    if v4 >= 0 {
        QUANTUM * ((v4 + 2 * QUANTUM) / (4 * QUANTUM))
    } else {
        QUANTUM * -((-v4 + 2 * QUANTUM) / (4 * QUANTUM))
    }
}

} // verus!
