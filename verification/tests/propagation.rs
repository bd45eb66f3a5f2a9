use logic_sandbox::edge::EDGE_DELAY_MS;
use logic_sandbox::gate::GateType;
use logic_sandbox::geometry::Vec2i;
use logic_sandbox::graph::GraphStore;
use logic_sandbox::propagate::{process_gates, propagate};

#[test]
fn new_edge_rests_finished() {
    let mut s = GraphStore::new();
    let a = s.create_node(Vec2i::new(0, 0));
    let b = s.create_node(Vec2i::new(100, 0));
    let e = s.create_edge(a, b).unwrap();
    assert_eq!(e.get(&s.edges).unwrap().timer.elapsed, EDGE_DELAY_MS);
    assert!(e.get(&s.edges).unwrap().timer.finished());
}

#[test]
fn delay_lands_at_tick_five_and_never_earlier() {
    // delay 0.1 s, tick 0.02 s: tick 0 notices the change, ticks 1..=5
    // accumulate, and the value lands exactly at tick 5
    let mut s = GraphStore::new();
    let a = s.create_node(Vec2i::new(0, 0));
    let b = s.create_node(Vec2i::new(100, 0));
    let e = s.create_edge(a, b).unwrap();
    s.set_node_value(a, true);
    let dt: u64 = 20;
    // tick 0: restart only
    propagate(&mut s, dt);
    assert!(!b.get(&s.nodes).unwrap().value);
    assert_eq!(e.get(&s.edges).unwrap().timer.elapsed, 0);
    // ticks 1..=4: still in flight
    for k in 1u64..5 {
        propagate(&mut s, dt);
        assert!(!b.get(&s.nodes).unwrap().value, "arrived early at tick {}", k);
        assert_eq!(e.get(&s.edges).unwrap().timer.elapsed, k * dt);
    }
    // tick 5: accumulated 100 ms >= delay, exactly one delivery
    propagate(&mut s, dt);
    assert!(b.get(&s.nodes).unwrap().value);
    assert_eq!(e.get(&s.edges).unwrap().timer.elapsed, EDGE_DELAY_MS);
    // and afterwards: steady state, nothing moves again
    propagate(&mut s, dt);
    assert!(b.get(&s.nodes).unwrap().value);
    assert_eq!(e.get(&s.edges).unwrap().timer.elapsed, EDGE_DELAY_MS);
}

#[test]
fn propagation_is_idempotent_at_steady_state() {
    let mut s = GraphStore::new();
    let a = s.create_node(Vec2i::new(0, 0));
    let b = s.create_node(Vec2i::new(100, 0));
    let e = s.create_edge(a, b).unwrap();
    // both false, timer finished: ticks of any size change nothing
    for dt in [1u64, 20, 100, 10_000] {
        propagate(&mut s, dt);
        assert!(!a.get(&s.nodes).unwrap().value);
        assert!(!b.get(&s.nodes).unwrap().value);
        assert_eq!(e.get(&s.edges).unwrap().timer.elapsed, EDGE_DELAY_MS);
    }
}

#[test]
fn oversized_tick_delivers_after_one_running_step() {
    let mut s = GraphStore::new();
    let a = s.create_node(Vec2i::new(0, 0));
    let b = s.create_node(Vec2i::new(100, 0));
    let e = s.create_edge(a, b).unwrap();
    s.set_node_value(a, true);
    propagate(&mut s, 10_000); // restart only, however large the delta
    assert!(!b.get(&s.nodes).unwrap().value);
    assert_eq!(e.get(&s.edges).unwrap().timer.elapsed, 0);
    propagate(&mut s, 10_000); // one running step covers the whole window
    assert!(b.get(&s.nodes).unwrap().value);
    assert_eq!(e.get(&s.edges).unwrap().timer.elapsed, EDGE_DELAY_MS);
}

#[test]
fn self_loop_edge_stays_idle() {
    let mut s = GraphStore::new();
    let a = s.create_node(Vec2i::new(0, 0));
    let e = s.create_edge(a, a).unwrap();
    s.set_node_value(a, true);
    for _ in 0..10 {
        propagate(&mut s, 20);
        assert!(a.get(&s.nodes).unwrap().value);
        assert_eq!(e.get(&s.edges).unwrap().timer.elapsed, EDGE_DELAY_MS);
    }
}

#[test]
fn and_gate_scenario_output_rises_after_delay_then_gate_tick() {
    // free node F -> edge -> I0; I1 toggled high; F toggled high;
    // O goes high only once the edge has delivered and a gate phase ran
    let mut s = GraphStore::new();
    let f = s.create_node(Vec2i::new(-300, 0));
    let g = s.create_gate(GateType::And, Vec2i::new(0, 0), Vec2i::new(120, 120));
    let gate = g.get(&s.gates).unwrap();
    let i0 = gate.inputs[0];
    let i1 = gate.inputs[1];
    let o = gate.output;
    s.create_edge(f, i0).unwrap();
    s.set_node_value(i1, true);
    s.set_node_value(f, true);
    let dt: u64 = 20;
    // five full ticks: the delay window has not elapsed, O stays false
    for _ in 0..5 {
        propagate(&mut s, dt);
        process_gates(&mut s);
        assert!(!o.get(&s.nodes).unwrap().value);
    }
    // the sixth edge phase delivers F into I0, and the same tick's gate
    // phase raises O
    propagate(&mut s, dt);
    assert!(i0.get(&s.nodes).unwrap().value);
    process_gates(&mut s);
    assert!(o.get(&s.nodes).unwrap().value);
}

#[test]
fn not_gate_chain_inverts() {
    let mut s = GraphStore::new();
    let f = s.create_node(Vec2i::new(-300, 0));
    let g = s.create_gate(GateType::Not, Vec2i::new(0, 0), Vec2i::new(120, 120));
    let gate = g.get(&s.gates).unwrap();
    let i0 = gate.inputs[0];
    let o = gate.output;
    s.create_edge(f, i0).unwrap();
    process_gates(&mut s);
    assert!(o.get(&s.nodes).unwrap().value); // Not of false
    s.set_node_value(f, true);
    for _ in 0..6 {
        propagate(&mut s, 20);
    }
    assert!(i0.get(&s.nodes).unwrap().value);
    process_gates(&mut s);
    assert!(!o.get(&s.nodes).unwrap().value); // Not of true
}
