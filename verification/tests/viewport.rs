use graph_canvas::metadata::Metadata;
use graph_canvas::rat::Rat;
use graph_canvas::vec2::{RectR, V2};

fn r(n: i64, d: i64) -> Rat {
    Rat { n, d }
}

fn v(x: i64, y: i64) -> V2 {
    V2 { x: r(x, 1), y: r(y, 1) }
}

#[test]
fn screen_canvas_round_trip_is_exact() {
    let meta = Metadata { zoom: r(2, 3), pan: V2 { x: r(5, 1), y: r(-7, 2) }, first_frame: false };
    let p = V2 { x: r(13, 4), y: r(-9, 5) };
    let canvas_p = meta.screen_to_canvas(p).unwrap();
    let back = meta.canvas_to_screen(canvas_p).unwrap();
    assert!(back.x.eq_value(p.x));
    assert!(back.y.eq_value(p.y));
}

#[test]
fn round_trip_wrong_value_is_rejected() {
    let meta = Metadata { zoom: r(2, 1), pan: v(1, 1), first_frame: false };
    let p = v(10, 20);
    let back = meta.canvas_to_screen(meta.screen_to_canvas(p).unwrap()).unwrap();
    assert!(!back.x.eq_value(r(11, 1)));
}

#[test]
fn zoom_at_keeps_anchor_point_fixed() {
    let mut meta = Metadata { zoom: r(1, 1), pan: v(3, 4), first_frame: false };
    let anchor = v(50, 60);
    let before = meta.screen_to_canvas(anchor).unwrap();
    let ok = meta.zoom_at(r(1, 10), anchor);
    assert!(ok);
    let after = meta.screen_to_canvas(anchor).unwrap();
    assert!(before.x.eq_value(after.x));
    assert!(before.y.eq_value(after.y));
}

#[test]
fn zoom_at_rejects_nonpositive_zoom() {
    let mut meta = Metadata { zoom: r(1, 1), pan: v(0, 0), first_frame: false };
    let ok = meta.zoom_at(r(-2, 1), v(0, 0));
    assert!(!ok);
    assert_eq!(meta.zoom, r(1, 1));
}

#[test]
fn fit_to_screen_is_idempotent() {
    let bounds = RectR { min: v(0, 0), max: v(100, 100) };
    let canvas = RectR { min: v(0, 0), max: v(400, 400) };
    let padding = r(3, 10);
    let mut m1 = Metadata::new();
    assert!(m1.fit_to_screen(bounds, canvas, padding));
    let first = (m1.zoom, m1.pan);
    assert!(m1.fit_to_screen(bounds, canvas, padding));
    assert_eq!(m1.zoom, first.0);
    assert_eq!(m1.pan, first.1);
}

#[test]
fn fit_uses_default_diagonal_for_degenerate_bounds() {
    // a single node: zero diagonal, replaced by the 1 x 100 default
    let bounds = RectR { min: v(7, 9), max: v(7, 9) };
    let canvas = RectR { min: v(0, 0), max: v(200, 100) };
    let mut m = Metadata::new();
    assert!(m.fit_to_screen(bounds, canvas, Rat { n: 0, d: 1 }));
    // zoom = min(200/1, 100/100) = 1
    assert!(m.zoom.eq_value(r(1, 1)));
}

#[test]
fn reset_restores_defaults() {
    let mut m = Metadata { zoom: r(7, 2), pan: v(4, 4), first_frame: false };
    m.reset();
    assert_eq!(m.zoom, r(1, 1));
    assert!(m.first_frame);
}
