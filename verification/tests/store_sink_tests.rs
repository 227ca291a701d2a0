use dwtr::sink::{BezierSegment, OutlineCmd, SvgGeometrySink};
use dwtr::store::SharedStore;

#[test]
fn intern_same_path_twice_returns_same_id() {
    let mut store = SharedStore::new();
    let id1 = store.add_path_def(String::from("M 0 0 L 1 1 Z "));
    let id2 = store.add_path_def(String::from("M 0 0 L 1 1 Z "));
    assert_eq!(id1, 1);
    assert_eq!(id2, 1);
    assert_eq!(store.len(), 1);
}

#[test]
fn intern_empty_path_returns_zero_and_never_grows() {
    let mut store = SharedStore::new();
    assert_eq!(store.add_path_def(String::new()), 0);
    assert_eq!(store.len(), 0);
    store.add_path_def(String::from("M 0 0 "));
    assert_eq!(store.add_path_def(String::new()), 0);
    assert_eq!(store.len(), 1);
}

#[test]
fn intern_assigns_ids_in_first_insertion_order() {
    let mut store = SharedStore::new();
    let a = store.add_path_def(String::from("M 0 0 "));
    let b = store.add_path_def(String::from("M 1 1 "));
    let a2 = store.add_path_def(String::from("M 0 0 "));
    assert_eq!((a, b, a2), (1, 2, 1));
    let entries = store.entries_vec();
    assert_eq!(
        entries,
        vec![(String::from("M 0 0 "), 1), (String::from("M 1 1 "), 2)]
    );
}

#[test]
fn begin_lines_and_close() {
    let mut sink = SvgGeometrySink::new();
    sink.begin_figure(512, 512);
    sink.add_lines(&vec![(1024, 512), (1024, 1024)]);
    sink.end_figure(true);
    assert_eq!(sink.reset(), "M 1 1 L 2 1 L 2 2 Z ");
}

#[test]
fn open_figure_has_no_close_marker() {
    let mut sink = SvgGeometrySink::new();
    sink.begin_figure(0, 0);
    sink.add_lines(&vec![(512, 0)]);
    sink.end_figure(false);
    assert_eq!(sink.reset(), "M 0 0 L 1 0 ");
}

#[test]
fn coordinates_quantize_to_one_256th() {
    let mut sink = SvgGeometrySink::new();
    // One sub-unit (1/512) rounds up to one quantum (1/256).
    sink.begin_figure(1, 1);
    assert_eq!(sink.reset(), "M 0.00390625 0.00390625 ");
    sink.begin_figure(-1, 3);
    assert_eq!(sink.reset(), "M -0.00390625 0.0078125 ");
}

#[test]
fn near_quadratic_cubic_collapses() {
    let mut sink = SvgGeometrySink::new();
    sink.begin_figure(0, 0);
    // A true quadratic through control point (3, 3) to endpoint (6, 0),
    // re-expressed as a cubic.
    sink.add_beziers(&vec![BezierSegment {
        x1: 1024,
        y1: 1024,
        x2: 2048,
        y2: 1024,
        x3: 3072,
        y3: 0,
    }]);
    assert_eq!(sink.reset(), "M 0 0 Q 3 3 6 0 ");
}

#[test]
fn divergent_cubic_stays_cubic() {
    let mut sink = SvgGeometrySink::new();
    sink.begin_figure(0, 0);
    // An S-curve: the implied control points differ far beyond tolerance.
    sink.add_beziers(&vec![BezierSegment {
        x1: 1024,
        y1: 1024,
        x2: 2048,
        y2: -1024,
        x3: 3072,
        y3: 0,
    }]);
    assert_eq!(sink.reset(), "M 0 0 C 2 2 4 -2 6 0 ");
}

#[test]
fn consume_replays_a_command_stream() {
    let mut sink = SvgGeometrySink::new();
    let cmds = vec![
        OutlineCmd::BeginFigure(0, 0),
        OutlineCmd::AddLines(vec![(512, 0), (512, 512)]),
        OutlineCmd::EndFigure(true),
    ];
    sink.consume(&cmds);
    assert_eq!(sink.reset(), "M 0 0 L 1 0 L 1 1 Z ");
}

#[test]
fn reset_clears_only_the_text() {
    let mut sink = SvgGeometrySink::new();
    sink.begin_figure(512, 0);
    assert_eq!(sink.reset(), "M 1 0 ");
    assert_eq!(sink.reset(), "");
    // The current point survives a reset: a following cubic still starts
    // at the last figure's point.
    sink.add_beziers(&vec![BezierSegment {
        x1: 1536,
        y1: 1024,
        x2: 2560,
        y2: 1024,
        x3: 3584,
        y3: 0,
    }]);
    assert_eq!(sink.reset(), "Q 4 3 7 0 ");
}
