use graph_canvas::graph::Graph;
use graph_canvas::node::Node;
use graph_canvas::rat::Rat;
use graph_canvas::simulation::{SimulationState, step};
use graph_canvas::transform::{add_edge, add_node_custom};
use graph_canvas::vec2::V2;

fn r(n: i64, d: i64) -> Rat {
    Rat { n, d }
}

fn v(x: i64, y: i64) -> V2 {
    V2 { x: r(x, 1), y: r(y, 1) }
}

fn coupling() -> Rat {
    r(1, 10)
}

#[test]
fn self_loop_survives_a_step_with_node_in_place() {
    // a one-node graph with a self-loop edge
    let mut g: Graph<(), &str> = Graph::new(true);
    let a = add_node_custom(&mut g, Node::new(v(42, 17), ()));
    let e = add_edge(&mut g, a, a, "loop").unwrap();
    let mut sim = SimulationState::new(100);
    step(&mut g, &mut sim, coupling());
    // the self-loop is still there, endpoints unchanged
    assert_eq!(g.edge_count(), 1);
    assert_eq!(g.edge_endpoints(e).unwrap(), (a, a));
    assert_eq!(*g.edge(e).unwrap().payload(), "loop");
    // and the node did not move
    let loc = g.node(a).unwrap().location();
    assert!(loc.x.eq_value(r(42, 1)));
    assert!(loc.y.eq_value(r(17, 1)));
    assert_eq!(sim.iterations, 1);
}

#[test]
fn empty_graph_step_is_a_quiet_no_op() {
    let mut g: Graph<(), ()> = Graph::new(false);
    let mut sim = SimulationState::new(3);
    step(&mut g, &mut sim, coupling());
    assert_eq!(g.node_count(), 0);
    assert_eq!(sim.iterations, 1);
}

#[test]
fn connected_nodes_pull_toward_each_other() {
    let mut g: Graph<(), ()> = Graph::new(false);
    let a = add_node_custom(&mut g, Node::new(v(0, 0), ()));
    let b = add_node_custom(&mut g, Node::new(v(100, 0), ()));
    add_edge(&mut g, a, b, ()).unwrap();
    let mut sim = SimulationState::new(10);
    step(&mut g, &mut sim, coupling());
    // each moves a tenth of the gap toward the other
    let la = g.node(a).unwrap().location();
    let lb = g.node(b).unwrap().location();
    assert!(la.x.eq_value(r(10, 1)));
    assert!(lb.x.eq_value(r(90, 1)));
    assert!(la.y.eq_value(r(0, 1)));
}

#[test]
fn isolated_node_does_not_move() {
    let mut g: Graph<(), ()> = Graph::new(false);
    let a = add_node_custom(&mut g, Node::new(v(5, 5), ()));
    let b = add_node_custom(&mut g, Node::new(v(8, 9), ()));
    let c = add_node_custom(&mut g, Node::new(v(-3, 2), ()));
    add_edge(&mut g, a, b, ()).unwrap();
    let mut sim = SimulationState::new(10);
    step(&mut g, &mut sim, coupling());
    let lc = g.node(c).unwrap().location();
    assert!(lc.x.eq_value(r(-3, 1)));
    assert!(lc.y.eq_value(r(2, 1)));
}

#[test]
fn converged_simulation_stops_advancing() {
    let mut g: Graph<(), ()> = Graph::new(false);
    let a = add_node_custom(&mut g, Node::new(v(0, 0), ()));
    let b = add_node_custom(&mut g, Node::new(v(100, 0), ()));
    add_edge(&mut g, a, b, ()).unwrap();
    let mut sim = SimulationState::new(1);
    step(&mut g, &mut sim, coupling());
    assert!(sim.converged());
    let frozen = g.node(a).unwrap().location();
    step(&mut g, &mut sim, coupling());
    assert_eq!(sim.iterations, 1);
    let after = g.node(a).unwrap().location();
    assert_eq!(frozen, after);
}

#[test]
fn drag_restart_resets_the_counter() {
    let mut sim = SimulationState::new(2);
    sim.iterations = 2;
    sim.maybe_restart_on_drag(true, false);
    assert_eq!(sim.iterations, 2);
    sim.maybe_restart_on_drag(false, true);
    assert_eq!(sim.iterations, 2);
    sim.maybe_restart_on_drag(true, true);
    assert_eq!(sim.iterations, 0);
    assert!(!sim.converged());
}
