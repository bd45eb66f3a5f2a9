use logic_sandbox::frame::frame_tick;
use logic_sandbox::gate::GateType;
use logic_sandbox::geometry::Vec2i;
use logic_sandbox::graph::GraphStore;
use logic_sandbox::interact::{ButtonInput, InteractionState, TickInput};

fn quiet(pointer: Vec2i) -> TickInput {
    TickInput {
        pointer,
        left: ButtonInput { just_pressed: false, just_released: false },
        right: ButtonInput { just_pressed: false, just_released: false },
    }
}

#[test]
fn whole_circuit_through_the_frame_loop() {
    // build F -> I0 of an AND gate through the public operations, then
    // drive everything else through full frames: toggles by clicking,
    // propagation by ticking
    let mut s = GraphStore::new();
    let mut st = InteractionState::new();
    let f = s.create_node(Vec2i::new(-300, 0));
    let g = s.create_gate(GateType::And, Vec2i::new(0, 0), Vec2i::new(120, 120));
    let gate = g.get(&s.gates).unwrap();
    let i0 = gate.inputs[0];
    let i1 = gate.inputs[1];
    let o = gate.output;
    let i1_pos = i1.get(&s.nodes).unwrap().pos;
    s.create_edge(f, i0).unwrap();
    let dt: u64 = 20;

    // click I1 high
    let mut input = quiet(i1_pos);
    input.left.just_pressed = true;
    frame_tick(&mut s, &mut st, &input, dt);
    assert!(i1.get(&s.nodes).unwrap().value);

    // click F high
    let mut input = quiet(Vec2i::new(-300, 0));
    input.left.just_pressed = true;
    frame_tick(&mut s, &mut st, &input, dt);
    assert!(f.get(&s.nodes).unwrap().value);

    // the click frame's edge phase noticed the change; four more quiet
    // frames stay inside the delay window
    for _ in 0..4 {
        frame_tick(&mut s, &mut st, &quiet(Vec2i::new(-500, -500)), dt);
        assert!(!i0.get(&s.nodes).unwrap().value);
        assert!(!o.get(&s.nodes).unwrap().value);
    }
    // the fifth quiet frame accumulates 100 ms: delivery, then the same
    // frame's gate phase raises the output
    frame_tick(&mut s, &mut st, &quiet(Vec2i::new(-500, -500)), dt);
    assert!(i0.get(&s.nodes).unwrap().value);
    assert!(o.get(&s.nodes).unwrap().value);
}

#[test]
fn hover_state_tracks_the_pointer_each_frame() {
    let mut s = GraphStore::new();
    let mut st = InteractionState::new();
    let n = s.create_node(Vec2i::new(0, 0));
    frame_tick(&mut s, &mut st, &quiet(Vec2i::new(3, 0)), 20);
    assert_eq!(st.hovered_node.unwrap().id, n.id);
    frame_tick(&mut s, &mut st, &quiet(Vec2i::new(300, 300)), 20);
    assert!(st.hovered_node.is_none());
    assert!(st.hovered_edge.is_none());
}

#[test]
fn frame_sweep_heals_programmatic_dangling_edges() {
    let mut s = GraphStore::new();
    let mut st = InteractionState::new();
    let a = s.create_node(Vec2i::new(0, 0));
    let b = s.create_node(Vec2i::new(200, 0));
    let e = s.create_edge(a, b).unwrap();
    s.delete_node(b);
    assert!(e.get(&s.edges).is_none());
    frame_tick(&mut s, &mut st, &quiet(Vec2i::new(-500, -500)), 20);
    assert_eq!(s.edges.live_count(), 0);
    assert_eq!(s.nodes.live_count(), 1);
}
