use graph_canvas::computed::ComputedState;
use graph_canvas::events::{
    Event, PayloadNodeDeselect, PayloadNodeSelect, PayloadPan, PyaloadZoom,
};
use graph_canvas::graph::Graph;
use graph_canvas::metadata::Metadata;
use graph_canvas::node::Node;
use graph_canvas::rat::Rat;
use graph_canvas::settings::{SettingsInteraction, SettingsNavigation};
use graph_canvas::transform::{add_edge, add_node_custom};
use graph_canvas::vec2::{RectR, V2};
use graph_canvas::view::{FrameInput, GraphView};

fn r(n: i64, d: i64) -> Rat {
    Rat { n, d }
}

fn v(x: i64, y: i64) -> V2 {
    V2 { x: r(x, 1), y: r(y, 1) }
}

fn quiet_input() -> FrameInput {
    FrameInput {
        canvas: RectR { min: v(0, 0), max: v(400, 400) },
        hover_pos: None,
        clicked: false,
        double_clicked: false,
        drag_started: false,
        dragged: false,
        drag_released: false,
        drag_delta: v(0, 0),
        zoom_delta: None,
    }
}

fn two_nodes() -> Graph<(), ()> {
    let mut g: Graph<(), ()> = Graph::new(true);
    add_node_custom(&mut g, Node::new(v(0, 0), ()));
    add_node_custom(&mut g, Node::new(v(100, 0), ()));
    g
}

#[test]
fn exclusive_selection_deselects_then_selects() {
    let mut g = two_nodes();
    g.set_node_selected(0, true);
    let comp = ComputedState::compute(&mut g);
    let view = GraphView::new().with_interactions(
        &SettingsInteraction {
            clicking_enabled: false,
            dragging_enabled: false,
            selection_enabled: true,
            selection_multi_enabled: false,
        },
    );
    let mut events: Vec<Event> = Vec::new();
    view.handle_node_click(&mut g, &comp, 1, &mut events);
    assert_eq!(
        events,
        vec![
            Event::NodeDeselect(PayloadNodeDeselect { id: 0 }),
            Event::NodeSelect(PayloadNodeSelect { id: 1 }),
        ]
    );
    assert!(!g.node(0).unwrap().selected());
    assert!(g.node(1).unwrap().selected());
}

#[test]
fn multi_selection_keeps_other_nodes() {
    let mut g = two_nodes();
    g.set_node_selected(0, true);
    let comp = ComputedState::compute(&mut g);
    let view = GraphView::new().with_interactions(
        &SettingsInteraction {
            clicking_enabled: false,
            dragging_enabled: false,
            selection_enabled: true,
            selection_multi_enabled: true,
        },
    );
    let mut events: Vec<Event> = Vec::new();
    view.handle_node_click(&mut g, &comp, 1, &mut events);
    assert_eq!(events, vec![Event::NodeSelect(PayloadNodeSelect { id: 1 })]);
    assert!(g.node(0).unwrap().selected());
    assert!(g.node(1).unwrap().selected());
}

#[test]
fn clicking_a_selected_node_only_deselects_it() {
    let mut g = two_nodes();
    g.set_node_selected(1, true);
    let comp = ComputedState::compute(&mut g);
    let view = GraphView::new().with_interactions(
        &SettingsInteraction {
            clicking_enabled: false,
            dragging_enabled: false,
            selection_enabled: true,
            selection_multi_enabled: false,
        },
    );
    let mut events: Vec<Event> = Vec::new();
    view.handle_node_click(&mut g, &comp, 1, &mut events);
    assert_eq!(events, vec![Event::NodeDeselect(PayloadNodeDeselect { id: 1 })]);
    assert!(!g.node(1).unwrap().selected());
}

#[test]
fn hit_test_boundary_is_inclusive() {
    // one node at the origin, base radius 5, no connections: canvas hit radius 5
    let mut g: Graph<(), ()> = Graph::new(true);
    add_node_custom(&mut g, Node::new(v(0, 0), ()));
    ComputedState::compute(&mut g);
    let meta = Metadata::new();
    let view = GraphView::new();
    // exactly on the rim: a hit
    assert_eq!(view.node_by_screen_pos(&g, &meta, v(5, 0)), Some(0));
    // the smallest step beyond: a miss
    let just_outside = V2 { x: r(5_000_001, 1_000_000), y: r(0, 1) };
    assert_eq!(view.node_by_screen_pos(&g, &meta, just_outside), None);
}

#[test]
fn hit_radius_grows_with_connections() {
    let mut g: Graph<(), ()> = Graph::new(true);
    add_node_custom(&mut g, Node::new(v(0, 0), ()));
    add_node_custom(&mut g, Node::new(v(1000, 0), ()));
    add_edge(&mut g, 0, 1, ()).unwrap();
    ComputedState::compute(&mut g);
    // one connection and weight 1: canvas hit radius 6
    let meta = Metadata::new();
    let view = GraphView::new();
    assert_eq!(view.node_by_screen_pos(&g, &meta, v(6, 0)), Some(0));
}

#[test]
fn pan_adds_raw_screen_delta() {
    let mut g = two_nodes();
    let comp = ComputedState::compute(&mut g);
    let mut meta = Metadata { zoom: r(2, 1), pan: v(10, 20), first_frame: false };
    let view = GraphView::new().with_navigations(
        &SettingsNavigation {
            fit_to_screen_enabled: false,
            zoom_and_pan_enabled: true,
            zoom_speed: r(1, 10),
            screen_padding: r(3, 10),
        },
    );
    let mut input = quiet_input();
    input.dragged = true;
    input.drag_delta = v(5, -7);
    let mut events: Vec<Event> = Vec::new();
    view.handle_pan(&mut meta, &comp, &input, &mut events);
    // pan is screen-space: no zoom division
    assert!(meta.pan.x.eq_value(r(15, 1)));
    assert!(meta.pan.y.eq_value(r(13, 1)));
    assert_eq!(
        events,
        vec![Event::Pan(PayloadPan { diff: v(5, -7), new_pos: meta.pan })]
    );
}

#[test]
fn zoom_gesture_applies_speed_step_and_reports_events() {
    let mut meta = Metadata::new();
    let view = GraphView::new().with_navigations(
        &SettingsNavigation {
            fit_to_screen_enabled: false,
            zoom_and_pan_enabled: true,
            zoom_speed: r(1, 10),
            screen_padding: r(3, 10),
        },
    );
    let mut input = quiet_input();
    // a shrinking gesture steps the zoom up by the configured speed
    input.zoom_delta = Some(r(1, 2));
    input.hover_pos = Some(v(0, 0));
    let mut events: Vec<Event> = Vec::new();
    view.handle_zoom(&mut meta, &input, &mut events);
    assert!(meta.zoom.eq_value(r(11, 10)));
    assert_eq!(events.len(), 2);
    assert!(matches!(events[0], Event::Pan(_)));
    assert_eq!(events[1], Event::Zoom(PyaloadZoom { diff: r(1, 10) }));
}

#[test]
fn disabled_navigation_ignores_gestures() {
    let mut meta = Metadata::new();
    meta.first_frame = false;
    let view = GraphView::new();
    let mut input = quiet_input();
    input.zoom_delta = Some(r(1, 2));
    let mut events: Vec<Event> = Vec::new();
    view.handle_zoom(&mut meta, &input, &mut events);
    assert!(meta.zoom.eq_value(r(1, 1)));
    assert!(events.is_empty());
}

#[test]
fn drag_moves_node_by_delta_over_zoom() {
    let mut g = two_nodes();
    g.set_node_dragged(0, true);
    let comp = ComputedState::compute(&mut g);
    let mut events: Vec<Event> = Vec::new();
    let meta = Metadata { zoom: r(2, 1), pan: v(0, 0), first_frame: false };
    let view = GraphView::new().with_interactions(
        &SettingsInteraction {
            clicking_enabled: false,
            dragging_enabled: true,
            selection_enabled: false,
            selection_multi_enabled: false,
        },
    );
    let mut input = quiet_input();
    input.dragged = true;
    input.drag_delta = v(10, 4);
    view.handle_node_drag(&mut g, &meta, &comp, &input, &mut events);
    let loc = g.node(0).unwrap().location();
    assert!(loc.x.eq_value(r(5, 1)));
    assert!(loc.y.eq_value(r(2, 1)));
    assert_eq!(events.len(), 1);
    assert!(matches!(events[0], Event::NodeMove(_)));
}

#[test]
fn drag_start_marks_the_hit_node() {
    let mut g = two_nodes();
    let comp = ComputedState::compute(&mut g);
    let meta = Metadata::new();
    let view = GraphView::new().with_interactions(
        &SettingsInteraction {
            clicking_enabled: false,
            dragging_enabled: true,
            selection_enabled: false,
            selection_multi_enabled: false,
        },
    );
    let mut input = quiet_input();
    input.drag_started = true;
    input.hover_pos = Some(v(100, 0));
    let mut events: Vec<Event> = Vec::new();
    view.handle_node_drag(&mut g, &meta, &comp, &input, &mut events);
    assert!(g.node(1).unwrap().dragged());
    assert!(!g.node(0).unwrap().dragged());
    assert_eq!(events.len(), 1);
    assert!(matches!(events[0], Event::NodeDragStart(_)));
}

#[test]
fn drag_start_on_empty_space_does_nothing() {
    let mut g = two_nodes();
    let comp = ComputedState::compute(&mut g);
    let meta = Metadata::new();
    let view = GraphView::new().with_interactions(
        &SettingsInteraction {
            clicking_enabled: false,
            dragging_enabled: true,
            selection_enabled: false,
            selection_multi_enabled: false,
        },
    );
    let mut input = quiet_input();
    input.drag_started = true;
    input.hover_pos = Some(v(5000, 5000));
    let mut events: Vec<Event> = Vec::new();
    view.handle_node_drag(&mut g, &meta, &comp, &input, &mut events);
    assert!(!g.node(0).unwrap().dragged());
    assert!(!g.node(1).unwrap().dragged());
    assert!(events.is_empty());
}

#[test]
fn vanished_identities_are_silent_no_ops() {
    let mut g = two_nodes();
    let view = GraphView::new();
    let mut events: Vec<Event> = Vec::new();
    view.select_node(&mut g, 9, &mut events);
    view.deselect_node(&mut g, 9, &mut events);
    view.set_drag_start(&mut g, 9, &mut events);
    view.set_drag_end(&mut g, 9, &mut events);
    let moved = view.move_node(
        &mut g,
        9,
        V2 { x: Rat { n: 1, d: 1 }, y: Rat { n: 1, d: 1 } },
        &mut events,
    );
    assert!(!moved);
    assert!(events.is_empty());
    assert!(!g.node(0).unwrap().selected() && !g.node(1).unwrap().selected());
}

#[test]
fn drag_release_clears_the_flag() {
    let mut g = two_nodes();
    g.set_node_dragged(1, true);
    let comp = ComputedState::compute(&mut g);
    let mut events: Vec<Event> = Vec::new();
    let meta = Metadata::new();
    let view = GraphView::new().with_interactions(
        &SettingsInteraction {
            clicking_enabled: false,
            dragging_enabled: true,
            selection_enabled: false,
            selection_multi_enabled: false,
        },
    );
    let mut input = quiet_input();
    input.drag_released = true;
    view.handle_node_drag(&mut g, &meta, &comp, &input, &mut events);
    assert!(!g.node(1).unwrap().dragged());
    assert_eq!(events.len(), 1);
    assert!(matches!(events[0], Event::NodeDragEnd(_)));
}

#[test]
fn ring_scenario_fit_centers_the_graph() {
    // 3-node directed ring, zoom 1, pan (0,0), canvas 400 x 400, padding 3/10
    let mut g: Graph<(), ()> = Graph::new(true);
    add_node_custom(&mut g, Node::new(v(0, 0), ()));
    add_node_custom(&mut g, Node::new(v(100, 0), ()));
    add_node_custom(&mut g, Node::new(v(0, 100), ()));
    add_edge(&mut g, 0, 1, ()).unwrap();
    add_edge(&mut g, 1, 2, ()).unwrap();
    add_edge(&mut g, 2, 0, ()).unwrap();
    let mut meta = Metadata::new();
    let view = GraphView::new();
    let input = quiet_input();
    let events = view.frame(&mut g, &mut meta, &input);
    assert!(events.is_empty());
    // every node's connection count is 2
    for i in 0..3 {
        assert_eq!(g.node(i).unwrap().num_connections(), 2);
    }
    // zoom = 400 / (100 * 1.3) = 40/13
    assert!(meta.zoom.eq_value(r(40, 13)));
    // the bounds center lands on the canvas center
    let center = meta.canvas_to_screen(v(50, 50)).unwrap();
    assert!(center.x.eq_value(r(200, 1)));
    assert!(center.y.eq_value(r(200, 1)));
    // and the padding is symmetric: min and max map at equal distance
    let lo = meta.canvas_to_screen(v(0, 0)).unwrap();
    let hi = meta.canvas_to_screen(v(100, 100)).unwrap();
    let sum = lo.x.try_add(hi.x).unwrap();
    assert!(sum.eq_value(r(400, 1)));
    assert!(!meta.first_frame);
}

#[test]
fn click_on_empty_space_deselects_everything() {
    let mut g = two_nodes();
    g.set_node_selected(0, true);
    g.set_node_selected(1, true);
    let comp = ComputedState::compute(&mut g);
    let meta = Metadata { zoom: r(1, 1), pan: v(0, 0), first_frame: false };
    let view = GraphView::new().with_interactions(
        &SettingsInteraction {
            clicking_enabled: false,
            dragging_enabled: false,
            selection_enabled: true,
            selection_multi_enabled: false,
        },
    );
    let mut input = quiet_input();
    input.clicked = true;
    input.hover_pos = Some(v(5000, 5000));
    let mut events: Vec<Event> = Vec::new();
    view.handle_click(&mut g, &meta, &comp, &input, &mut events);
    assert_eq!(
        events,
        vec![
            Event::NodeDeselect(PayloadNodeDeselect { id: 0 }),
            Event::NodeDeselect(PayloadNodeDeselect { id: 1 }),
        ]
    );
    assert!(!g.node(0).unwrap().selected());
    assert!(!g.node(1).unwrap().selected());
}
