use graph_canvas::edge::Edge;
use graph_canvas::events::{Event, PayloadNodeClick, PyaloadZoom};
use graph_canvas::rat::Rat;

fn r(n: i64, d: i64) -> Rat {
    Rat { n, d }
}

#[test]
fn exact_arithmetic_on_small_values() {
    let a = r(1, 3);
    let b = r(1, 6);
    assert!(a.try_add(b).unwrap().eq_value(r(1, 2)));
    assert!(a.try_sub(b).unwrap().eq_value(r(1, 6)));
    assert!(a.try_mul(b).unwrap().eq_value(r(1, 18)));
    assert!(a.try_div(b).unwrap().eq_value(r(2, 1)));
}

#[test]
fn division_by_zero_is_refused() {
    assert!(r(1, 2).try_div(r(0, 5)).is_none());
}

#[test]
fn division_by_a_negative_keeps_the_denominator_positive() {
    let q = r(3, 4).try_div(r(-2, 5)).unwrap();
    assert!(q.d > 0);
    assert!(q.eq_value(r(-15, 8)));
}

#[test]
fn overflowing_results_are_refused() {
    let big = r(i64::MAX, 1);
    assert!(big.try_add(r(1, 1)).is_none());
    assert!(big.try_mul(r(2, 1)).is_none());
    assert!(r(i64::MIN, 1).try_neg().is_none());
}

#[test]
fn comparisons_are_value_comparisons() {
    assert!(r(1, 2).eq_value(r(2, 4)));
    assert!(r(1, 3).lt(r(1, 2)));
    assert!(r(-1, 2).le(r(0, 1)));
    assert!(!r(1, 2).lt(r(2, 4)));
    assert_eq!(r(1, 2).rat_min(r(2, 4)), r(1, 2));
}

#[test]
fn edge_binding_fixes_identity_and_order() {
    let mut e: Edge<&str> = Edge::new("payload");
    assert!(e.order() == 0 && !e.selected());
    e.bind(7, 2);
    assert_eq!(e.id(), 7);
    assert_eq!(e.order(), 2);
    assert_eq!(*e.payload(), "payload");
    e.set_selected(true);
    assert!(e.selected());
    *e.payload_mut() = "swapped";
    assert_eq!(e.props().payload, "swapped");
}

#[test]
fn events_compare_by_value() {
    let a = Event::NodeClick(PayloadNodeClick { id: 4 });
    let b = Event::NodeClick(PayloadNodeClick { id: 4 });
    let c = Event::Zoom(PyaloadZoom { diff: r(1, 10) });
    assert_eq!(a, b);
    assert_ne!(a, c);
}
