use graph_canvas::computed::ComputedState;
use graph_canvas::graph::Graph;
use graph_canvas::node::Node;
use graph_canvas::rat::Rat;
use graph_canvas::edge::Edge;
use graph_canvas::transform::{
    add_edge, add_edge_custom, add_node_custom, default_edge_transform, default_node_transform,
    to_graph, to_graph_custom,
};
use graph_canvas::vec2::V2;

fn v(x: i64, y: i64) -> V2 {
    V2 { x: Rat { n: x, d: 1 }, y: Rat { n: y, d: 1 } }
}

#[test]
fn parallel_edges_get_dense_stable_orders() {
    let mut g: Graph<(), &str> = Graph::new(true);
    let a = add_node_custom(&mut g, Node::new(v(0, 0), ()));
    let b = add_node_custom(&mut g, Node::new(v(10, 0), ()));
    let e1 = add_edge(&mut g, a, b, "first").unwrap();
    let e2 = add_edge(&mut g, a, b, "second").unwrap();
    let e3 = add_edge(&mut g, a, b, "third").unwrap();
    assert_eq!(g.edge(e1).unwrap().order(), 0);
    assert_eq!(g.edge(e2).unwrap().order(), 1);
    assert_eq!(g.edge(e3).unwrap().order(), 2);
}

#[test]
fn reverse_direction_shares_the_unordered_bucket() {
    let mut g: Graph<(), ()> = Graph::new(true);
    let a = add_node_custom(&mut g, Node::new(v(0, 0), ()));
    let b = add_node_custom(&mut g, Node::new(v(10, 0), ()));
    let e1 = add_edge(&mut g, a, b, ()).unwrap();
    let e2 = add_edge(&mut g, b, a, ()).unwrap();
    assert_eq!(g.edge(e1).unwrap().order(), 0);
    assert_eq!(g.edge(e2).unwrap().order(), 1);
    assert_eq!(g.pair_count(a, b), 2);
    assert_eq!(g.pair_count(b, a), 2);
}

#[test]
fn add_edge_with_missing_endpoint_is_refused() {
    let mut g: Graph<(), ()> = Graph::new(false);
    let a = add_node_custom(&mut g, Node::new(v(0, 0), ()));
    assert!(add_edge(&mut g, a, 5, ()).is_none());
    assert_eq!(g.edge_count(), 0);
    assert_eq!(g.node_count(), 1);
}

#[test]
fn custom_edges_join_the_same_bucket() {
    let mut g: Graph<(), u8> = Graph::new(true);
    let a = add_node_custom(&mut g, Node::new(v(0, 0), ()));
    let b = add_node_custom(&mut g, Node::new(v(10, 0), ()));
    add_edge(&mut g, a, b, 1).unwrap();
    let e = default_edge_transform(9, 2);
    assert_eq!(*e.payload(), 2);
    let idx = add_edge_custom(&mut g, a, b, Edge::new(2)).unwrap();
    // the store assigns the rank, whatever the handed-in edge carried
    assert_eq!(g.edge(idx).unwrap().order(), 1);
    assert_eq!(*g.edge(idx).unwrap().payload(), 2);
}

#[test]
fn custom_edges_keep_their_selected_flag() {
    let mut g: Graph<(), ()> = Graph::new(true);
    let a = add_node_custom(&mut g, Node::new(v(0, 0), ()));
    let b = add_node_custom(&mut g, Node::new(v(10, 0), ()));
    let mut e = Edge::new(());
    e.set_selected(true);
    let idx = add_edge_custom(&mut g, a, b, e).unwrap();
    assert!(g.edge(idx).unwrap().selected());
    let plain = add_edge(&mut g, a, b, ()).unwrap();
    assert!(!g.edge(plain).unwrap().selected());
}

#[test]
fn to_graph_skips_out_of_range_edges() {
    let nodes = vec![10u8, 20u8];
    let edges = vec![(0usize, 1usize, "kept"), (0usize, 9usize, "dropped"), (1usize, 0usize, "kept too")];
    let g = to_graph(nodes, edges, true);
    assert_eq!(g.node_count(), 2);
    assert_eq!(g.edge_count(), 2);
    assert_eq!(*g.edge(0).unwrap().payload(), "kept");
    assert_eq!(g.edge_endpoints(0).unwrap(), (0, 1));
    assert_eq!(*g.edge(1).unwrap().payload(), "kept too");
    assert_eq!(g.edge_endpoints(1).unwrap(), (1, 0));
}

#[test]
fn custom_ingestion_keeps_the_handed_parts() {
    let n0: Node<u8> = Node::new(v(1, 2), 7);
    let n1: Node<u8> = Node::new(v(3, 4), 9);
    let mut e = Edge::new("picked");
    e.set_selected(true);
    let g = to_graph_custom(vec![n0, n1], vec![(0usize, 1usize, e)], false);
    assert_eq!(g.node_count(), 2);
    assert_eq!(g.node(0).unwrap().data, 7);
    assert_eq!(g.node(1).unwrap().data, 9);
    assert_eq!(g.node(1).unwrap().location(), v(3, 4));
    assert_eq!(g.edge_count(), 1);
    assert_eq!(*g.edge(0).unwrap().payload(), "picked");
    assert!(g.edge(0).unwrap().selected());
    assert_eq!(g.edge(0).unwrap().order(), 0);
}

#[test]
fn missing_lookups_are_recoverable() {
    let g: Graph<(), ()> = Graph::new(true);
    assert!(g.node(0).is_none());
    assert!(g.edge(0).is_none());
    assert!(g.edge_endpoints(3).is_none());
}

#[test]
fn connection_counts_cover_both_directions() {
    // 3-node directed ring: every node touches exactly two edges
    let mut g: Graph<u8, ()> = Graph::new(true);
    let a = add_node_custom(&mut g, Node::new(v(0, 0), 0));
    let b = add_node_custom(&mut g, Node::new(v(100, 0), 1));
    let c = add_node_custom(&mut g, Node::new(v(0, 100), 2));
    add_edge(&mut g, a, b, ()).unwrap();
    add_edge(&mut g, b, c, ()).unwrap();
    add_edge(&mut g, c, a, ()).unwrap();
    ComputedState::compute(&mut g);
    for i in 0..3 {
        assert_eq!(g.node(i).unwrap().num_connections(), 2);
    }
}

#[test]
fn computed_state_gathers_selection_and_bounds() {
    let mut g: Graph<(), ()> = Graph::new(false);
    let a = add_node_custom(&mut g, Node::new(v(-5, 2), ()));
    let b = add_node_custom(&mut g, Node::new(v(9, -3), ()));
    let e = add_edge(&mut g, a, b, ()).unwrap();
    g.set_node_selected(b, true);
    g.set_edge_selected(e, true);
    g.set_node_dragged(a, true);
    let comp = ComputedState::compute(&mut g);
    assert_eq!(comp.selected_nodes, vec![b]);
    assert_eq!(comp.selected_edges, vec![e]);
    assert_eq!(comp.dragged, Some(a));
    let bounds = comp.graph_bounds();
    assert_eq!(bounds.min, v(-5, -3));
    assert_eq!(bounds.max, v(9, 2));
}

#[test]
fn default_transform_spawns_in_square_with_decimal_label() {
    let n: Node<u8> = default_node_transform(3, 42);
    assert_eq!(n.data, 42);
    assert_eq!(n.label(), "3");
    let loc = n.location();
    assert_eq!(loc.x.d, 1);
    assert_eq!(loc.y.d, 1);
    assert!(0 <= loc.x.n && loc.x.n < 250);
    assert!(0 <= loc.y.n && loc.y.n < 250);
    assert!(!n.selected());
    assert!(!n.dragged());
}

#[test]
fn test_to_graph_directed() {
    let nodes = vec!["Node1", "Node2"];
    let edges = vec![(0usize, 1usize, "Edge1")];
    let g = to_graph(nodes, edges, true);
    assert_eq!(g.node_count(), 2);
    assert_eq!(g.edge_count(), 1);
    assert!(g.is_directed());
    for i in 0..2 {
        let n = g.node(i).unwrap();
        assert_eq!(n.data, if i == 0 { "Node1" } else { "Node2" });
        assert!(n.location().x.n >= 0 && n.location().x.n <= 250);
        assert!(n.location().y.n >= 0 && n.location().y.n <= 250);
        assert_eq!(*n.label(), i.to_string());
        assert!(!n.selected());
        assert!(!n.dragged());
    }
    assert_eq!(*g.edge(0).unwrap().payload(), "Edge1");
    assert_eq!(g.edge_endpoints(0).unwrap(), (0, 1));
}

#[test]
fn test_to_graph_undirected() {
    let nodes = vec!["Node1", "Node2"];
    let edges = vec![(0usize, 1usize, "Edge1")];
    let g = to_graph(nodes, edges, false);
    assert_eq!(g.node_count(), 2);
    assert_eq!(g.edge_count(), 1);
    assert!(!g.is_directed());
    for i in 0..2 {
        let n = g.node(i).unwrap();
        assert_eq!(n.data, if i == 0 { "Node1" } else { "Node2" });
        assert!(n.location().x.n >= 0 && n.location().x.n <= 250);
        assert!(n.location().y.n >= 0 && n.location().y.n <= 250);
        assert_eq!(*n.label(), i.to_string());
        assert!(!n.selected());
        assert!(!n.dragged());
    }
    assert_eq!(*g.edge(0).unwrap().payload(), "Edge1");
}
