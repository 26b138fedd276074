use graph_canvas::computed::ComputedState;
use graph_canvas::drawer::{Layers, default_edges_draw, default_node_draw, draw};
use graph_canvas::geometry::{
    Shape, isqrt_u128, self_loop_shape, straight_edge_shapes, unit_approx,
};
use graph_canvas::graph::Graph;
use graph_canvas::metadata::Metadata;
use graph_canvas::node::Node;
use graph_canvas::rat::Rat;
use graph_canvas::settings::SettingsStyle;
use graph_canvas::transform::{add_edge, add_node_custom};
use graph_canvas::vec2::V2;

fn r(n: i64, d: i64) -> Rat {
    Rat { n, d }
}

fn v(x: i64, y: i64) -> V2 {
    V2 { x: r(x, 1), y: r(y, 1) }
}

#[test]
fn isqrt_rounds_down() {
    assert_eq!(isqrt_u128(0), 0);
    assert_eq!(isqrt_u128(1), 1);
    assert_eq!(isqrt_u128(10), 3);
    assert_eq!(isqrt_u128(144), 12);
    assert_eq!(isqrt_u128(u64::MAX as u128), 4294967295);
}

#[test]
fn unit_approx_is_exact_on_integer_lengths() {
    // a 3-4-5 triangle normalizes exactly
    let (u, len) = unit_approx(v(3, 4)).unwrap();
    assert!(len.eq_value(r(5, 1)));
    assert!(u.x.eq_value(r(3, 5)));
    assert!(u.y.eq_value(r(4, 5)));
}

#[test]
fn unit_approx_skips_zero_vectors() {
    assert!(unit_approx(v(0, 0)).is_none());
}

#[test]
fn self_loop_anchors_one_radius_up() {
    let shape = self_loop_shape(v(10, 20), r(5, 1), r(2, 1)).unwrap();
    match shape {
        Shape::Cubic { a, c1, c2, b, width } => {
            assert!(a.x.eq_value(r(10, 1)) && a.y.eq_value(r(15, 1)));
            assert!(c1.x.eq_value(r(30, 1)) && c1.y.eq_value(r(0, 1)));
            assert!(c2.x.eq_value(r(-10, 1)) && c2.y.eq_value(r(0, 1)));
            assert_eq!(a, b);
            assert!(width.eq_value(r(2, 1)));
        },
        _ => panic!("self-loop must be a cubic curve"),
    }
}

#[test]
fn straight_edge_trims_rims_and_arrowhead() {
    // horizontal edge: direction (1, 0) normalizes exactly
    // arrowhead angle with cosine 1 and sine 0 folds onto the reverse direction
    let shapes = straight_edge_shapes(
        v(0, 0),
        r(5, 1),
        v(100, 0),
        r(7, 1),
        r(2, 1),
        r(15, 1),
        r(1, 1),
        r(0, 1),
        true,
    )
    .unwrap();
    assert_eq!(shapes.len(), 3);
    match shapes[0] {
        Shape::Line { a, b, .. } => {
            assert!(a.x.eq_value(r(5, 1)) && a.y.eq_value(r(0, 1)));
            // tip sits at 100 - 7, the body ends another 15 earlier
            assert!(b.x.eq_value(r(78, 1)) && b.y.eq_value(r(0, 1)));
        },
        _ => panic!("edge body must be a line"),
    }
    match shapes[1] {
        Shape::Line { a, b, .. } => {
            assert!(a.x.eq_value(r(93, 1)));
            assert!(b.x.eq_value(r(78, 1)));
        },
        _ => panic!("arrow strokes must be lines"),
    }
}

#[test]
fn straight_edge_undirected_has_no_arrow() {
    let shapes = straight_edge_shapes(
        v(0, 0),
        r(5, 1),
        v(100, 0),
        r(7, 1),
        r(2, 1),
        r(15, 1),
        r(1, 1),
        r(0, 1),
        false,
    )
    .unwrap();
    assert_eq!(shapes.len(), 1);
}

#[test]
fn coincident_endpoints_skip_the_edge() {
    // distinct nodes at the same location: the degenerate guard skips
    let shapes = straight_edge_shapes(
        v(50, 50),
        r(5, 1),
        v(50, 50),
        r(5, 1),
        r(2, 1),
        r(15, 1),
        r(1, 1),
        r(0, 1),
        true,
    );
    assert!(shapes.is_none());
}

#[test]
fn parallel_edges_curve_by_rank() {
    let mut g: Graph<(), ()> = Graph::new(false);
    add_node_custom(&mut g, Node::new(v(0, 0), ()));
    add_node_custom(&mut g, Node::new(v(100, 0), ()));
    add_edge(&mut g, 0, 1, ()).unwrap();
    add_edge(&mut g, 0, 1, ()).unwrap();
    ComputedState::compute(&mut g);
    let meta = Metadata::new();
    let style = SettingsStyle::default();
    let first = default_edges_draw(&g, &meta, &style, 0).unwrap();
    let second = default_edges_draw(&g, &meta, &style, 1).unwrap();
    // undirected parallel edges: one quadratic curve each
    let c1 = match first[0] {
        Shape::Quad { control, .. } => control,
        _ => panic!("parallel edges must be quadratic curves"),
    };
    let c2 = match second[0] {
        Shape::Quad { control, .. } => control,
        _ => panic!("parallel edges must be quadratic curves"),
    };
    // rank 1 offsets by curve_size, rank 2 by twice as much
    assert!(c1.x.eq_value(r(50, 1)));
    assert!(c1.y.eq_value(r(20, 1)));
    assert!(c2.x.eq_value(r(50, 1)));
    assert!(c2.y.eq_value(r(40, 1)));
}

#[test]
fn self_loop_edge_is_drawn_as_cubic() {
    let mut g: Graph<(), ()> = Graph::new(true);
    add_node_custom(&mut g, Node::new(v(10, 10), ()));
    add_edge(&mut g, 0, 0, ()).unwrap();
    ComputedState::compute(&mut g);
    let meta = Metadata::new();
    let style = SettingsStyle::default();
    let shapes = default_edges_draw(&g, &meta, &style, 0).unwrap();
    assert_eq!(shapes.len(), 1);
    assert!(matches!(shapes[0], Shape::Cubic { .. }));
}

#[test]
fn node_draw_scales_radius_with_connections_and_zoom() {
    let mut g: Graph<(), ()> = Graph::new(true);
    add_node_custom(&mut g, Node::new(v(3, 4), ()));
    add_node_custom(&mut g, Node::new(v(50, 4), ()));
    add_edge(&mut g, 0, 1, ()).unwrap();
    ComputedState::compute(&mut g);
    let meta = Metadata { zoom: r(2, 1), pan: v(1, 1), first_frame: false };
    let style = SettingsStyle::default();
    let shape = default_node_draw(g.node(0).unwrap(), &meta, &style).unwrap();
    match shape {
        Shape::Circle { center, radius } => {
            assert!(center.x.eq_value(r(7, 1)));
            assert!(center.y.eq_value(r(9, 1)));
            // (5 base + 1 connection * weight 1) * zoom 2
            assert!(radius.eq_value(r(12, 1)));
        },
        _ => panic!("a node draws as a circle"),
    }
}

#[test]
fn layers_paint_base_before_top() {
    let mut l = Layers::new();
    let a = Shape::Circle { center: v(0, 0), radius: r(1, 1) };
    let b = Shape::Circle { center: v(1, 0), radius: r(1, 1) };
    let c = Shape::Circle { center: v(2, 0), radius: r(1, 1) };
    l.add_top(a);
    l.add(b);
    l.add(c);
    let order = l.draw_order();
    assert_eq!(order, vec![b, c, a]);
}

#[test]
fn highlighted_elements_land_in_the_top_layer() {
    let mut g: Graph<(), ()> = Graph::new(true);
    add_node_custom(&mut g, Node::new(v(0, 0), ()));
    add_node_custom(&mut g, Node::new(v(100, 0), ()));
    add_edge(&mut g, 0, 1, ()).unwrap();
    g.set_node_selected(0, true);
    ComputedState::compute(&mut g);
    let meta = Metadata::new();
    let style = SettingsStyle::default();
    let all = draw(&g, &meta, &style);
    // 3 edge shapes (body and two arrow strokes) + 2 circles;
    // the selected node's circle paints last
    assert_eq!(all.len(), 5);
    assert!(matches!(all[4], Shape::Circle { .. }));
    match all[4] {
        Shape::Circle { center, .. } => assert!(center.x.eq_value(r(0, 1))),
        _ => unreachable!(),
    }
}
