use logic_sandbox::gate::GateType;
use logic_sandbox::geometry::Vec2i;
use logic_sandbox::graph::GraphStore;
use logic_sandbox::interact::{
    create_edges, delete_edges, hover_edge, hover_node, move_gate, toggle_node, ButtonInput,
    InteractionState, TickInput,
};

fn idle_button() -> ButtonInput {
    ButtonInput { just_pressed: false, just_released: false }
}

fn input_at(pointer: Vec2i) -> TickInput {
    TickInput { pointer, left: idle_button(), right: idle_button() }
}

#[test]
fn right_press_and_release_over_nodes_creates_one_edge() {
    let mut s = GraphStore::new();
    let mut st = InteractionState::new();
    let a = s.create_node(Vec2i::new(0, 0));
    let b = s.create_node(Vec2i::new(200, 0));
    // press right over A
    let mut input = input_at(Vec2i::new(0, 0));
    input.right.just_pressed = true;
    hover_node(&s, &mut st, input.pointer);
    create_edges(&mut s, &mut st, &input);
    assert_eq!(s.edges.live_count(), 0);
    // release right over B
    let mut input = input_at(Vec2i::new(200, 0));
    input.right.just_released = true;
    hover_node(&s, &mut st, input.pointer);
    create_edges(&mut s, &mut st, &input);
    assert_eq!(s.edges.live_count(), 1);
    let e = s.create_edge(a, b); // a second A->B would be a second writer for B
    assert!(e.is_none());
    // the gesture is back to idle: another release creates nothing
    let mut input = input_at(Vec2i::new(200, 0));
    input.right.just_released = true;
    hover_node(&s, &mut st, input.pointer);
    create_edges(&mut s, &mut st, &input);
    assert_eq!(s.edges.live_count(), 1);
}

#[test]
fn releasing_over_empty_canvas_cancels_edge_creation() {
    let mut s = GraphStore::new();
    let mut st = InteractionState::new();
    s.create_node(Vec2i::new(0, 0));
    s.create_node(Vec2i::new(200, 0));
    let mut input = input_at(Vec2i::new(0, 0));
    input.right.just_pressed = true;
    hover_node(&s, &mut st, input.pointer);
    create_edges(&mut s, &mut st, &input);
    // drag to empty canvas, release
    let mut input = input_at(Vec2i::new(500, 500));
    input.right.just_released = true;
    hover_node(&s, &mut st, input.pointer);
    create_edges(&mut s, &mut st, &input);
    assert_eq!(s.edges.live_count(), 0);
    // the pending source was dropped: a later release over a node still
    // creates nothing
    let mut input = input_at(Vec2i::new(200, 0));
    input.right.just_released = true;
    hover_node(&s, &mut st, input.pointer);
    create_edges(&mut s, &mut st, &input);
    assert_eq!(s.edges.live_count(), 0);
}

#[test]
fn self_loop_gesture_is_permitted() {
    let mut s = GraphStore::new();
    let mut st = InteractionState::new();
    let a = s.create_node(Vec2i::new(0, 0));
    let mut input = input_at(Vec2i::new(0, 0));
    input.right.just_pressed = true;
    hover_node(&s, &mut st, input.pointer);
    create_edges(&mut s, &mut st, &input);
    let mut input = input_at(Vec2i::new(3, 0));
    input.right.just_released = true;
    hover_node(&s, &mut st, input.pointer);
    create_edges(&mut s, &mut st, &input);
    assert_eq!(s.edges.live_count(), 1);
    let e = logic_sandbox::hit::edge_hit(&s, Vec2i::new(2, 2)).unwrap();
    let edge = e.get(&s.edges).unwrap();
    assert_eq!(edge.from.id, a.id);
    assert_eq!(edge.to.id, a.id);
}

#[test]
fn right_release_over_hovered_edge_deletes_it() {
    let mut s = GraphStore::new();
    let mut st = InteractionState::new();
    let a = s.create_node(Vec2i::new(0, 0));
    let b = s.create_node(Vec2i::new(200, 0));
    s.create_edge(a, b).unwrap();
    let mut input = input_at(Vec2i::new(100, 2));
    input.right.just_released = true;
    hover_node(&s, &mut st, input.pointer);
    hover_edge(&s, &mut st, input.pointer);
    assert!(st.hovered_edge.is_some());
    delete_edges(&mut s, &st, &input);
    assert_eq!(s.edges.live_count(), 0);
}

#[test]
fn node_hover_suppresses_edge_hover() {
    let mut s = GraphStore::new();
    let mut st = InteractionState::new();
    let a = s.create_node(Vec2i::new(0, 0));
    let b = s.create_node(Vec2i::new(200, 0));
    s.create_edge(a, b).unwrap();
    // over node A, which also lies on the wire
    let p = Vec2i::new(4, 0);
    hover_node(&s, &mut st, p);
    hover_edge(&s, &mut st, p);
    assert!(st.hovered_node.is_some());
    assert!(st.hovered_edge.is_none());
    // between the nodes only the wire is under the pointer
    let p = Vec2i::new(100, 2);
    hover_node(&s, &mut st, p);
    hover_edge(&s, &mut st, p);
    assert!(st.hovered_node.is_none());
    assert!(st.hovered_edge.is_some());
}

#[test]
fn left_press_toggles_hovered_free_node_only() {
    let mut s = GraphStore::new();
    let mut st = InteractionState::new();
    let a = s.create_node(Vec2i::new(0, 0));
    let mut input = input_at(Vec2i::new(0, 0));
    input.left.just_pressed = true;
    hover_node(&s, &mut st, input.pointer);
    toggle_node(&mut s, &st, &input);
    assert!(a.get(&s.nodes).unwrap().value);
    hover_node(&s, &mut st, input.pointer);
    toggle_node(&mut s, &st, &input);
    assert!(!a.get(&s.nodes).unwrap().value);
    // without the press edge nothing happens
    let input = input_at(Vec2i::new(0, 0));
    hover_node(&s, &mut st, input.pointer);
    toggle_node(&mut s, &st, &input);
    assert!(!a.get(&s.nodes).unwrap().value);
}

#[test]
fn toggling_a_gate_output_is_refused() {
    let mut s = GraphStore::new();
    let mut st = InteractionState::new();
    let g = s.create_gate(GateType::And, Vec2i::new(0, 0), Vec2i::new(120, 120));
    let o = g.get(&s.gates).unwrap().output;
    let opos = o.get(&s.nodes).unwrap().pos;
    let mut input = input_at(opos);
    input.left.just_pressed = true;
    hover_node(&s, &mut st, input.pointer);
    assert_eq!(st.hovered_node.unwrap().id, o.id);
    toggle_node(&mut s, &st, &input);
    assert!(!o.get(&s.nodes).unwrap().value);
}

#[test]
fn dragging_a_gate_snaps_to_the_grid_and_carries_children() {
    let mut s = GraphStore::new();
    let mut st = InteractionState::new();
    let g = s.create_gate(GateType::And, Vec2i::new(100, 100), Vec2i::new(120, 120));
    // grab inside the box, off-center
    let mut input = input_at(Vec2i::new(110, 110));
    input.left.just_pressed = true;
    move_gate(&mut s, &mut st, &input);
    let (held, off) = st.moving_gate.unwrap();
    assert_eq!(held.id, g.id);
    assert_eq!(off, Vec2i::new(-10, -10));
    // the grab tick itself snaps the grabbed position back onto the grid
    assert_eq!(g.get(&s.gates).unwrap().pos, Vec2i::new(100, 100));
    // drag: pointer + offset = (163, 85), snapped to (160, 80)
    let input = input_at(Vec2i::new(173, 95));
    move_gate(&mut s, &mut st, &input);
    assert_eq!(g.get(&s.gates).unwrap().pos, Vec2i::new(160, 80));
    let gate = g.get(&s.gates).unwrap();
    assert_eq!(gate.inputs[0].get(&s.nodes).unwrap().pos, Vec2i::new(100, 100));
    assert_eq!(gate.inputs[1].get(&s.nodes).unwrap().pos, Vec2i::new(100, 60));
    assert_eq!(gate.output.get(&s.nodes).unwrap().pos, Vec2i::new(220, 80));
    // release lets go; further pointer movement moves nothing
    let mut input = input_at(Vec2i::new(400, 400));
    input.left.just_released = true;
    move_gate(&mut s, &mut st, &input);
    assert!(st.moving_gate.is_none());
    assert_eq!(g.get(&s.gates).unwrap().pos, Vec2i::new(160, 80));
}

#[test]
fn pressing_outside_every_gate_grabs_nothing() {
    let mut s = GraphStore::new();
    let mut st = InteractionState::new();
    s.create_gate(GateType::Or, Vec2i::new(0, 0), Vec2i::new(120, 120));
    let mut input = input_at(Vec2i::new(500, 500));
    input.left.just_pressed = true;
    move_gate(&mut s, &mut st, &input);
    assert!(st.moving_gate.is_none());
}
