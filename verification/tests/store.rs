use logic_sandbox::gate::GateType;
use logic_sandbox::geometry::Vec2i;
use logic_sandbox::graph::GraphStore;

#[test]
fn deleting_a_node_cascades_to_its_edges() {
    let mut s = GraphStore::new();
    let a = s.create_node(Vec2i::new(0, 0));
    let b = s.create_node(Vec2i::new(100, 0));
    let c = s.create_node(Vec2i::new(200, 0));
    let e_ab = s.create_edge(a, b).unwrap();
    let e_bc = s.create_edge(b, c).unwrap();
    assert_eq!(s.edges.live_count(), 2);
    s.delete_node(b);
    // both the incoming and the outgoing edge of b are gone
    assert!(b.get(&s.nodes).is_none());
    assert!(e_ab.get(&s.edges).is_none());
    assert!(e_bc.get(&s.edges).is_none());
    assert_eq!(s.edges.live_count(), 0);
    // the untouched nodes survive
    assert!(a.get(&s.nodes).is_some());
    assert!(c.get(&s.nodes).is_some());
}

#[test]
fn deleting_a_gate_cascades_to_children_and_their_edges() {
    let mut s = GraphStore::new();
    let f = s.create_node(Vec2i::new(-300, 0));
    let g = s.create_gate(GateType::And, Vec2i::new(0, 0), Vec2i::new(120, 120));
    let gate = g.get(&s.gates).unwrap();
    let i0 = gate.inputs[0];
    let i1 = gate.inputs[1];
    let o = gate.output;
    let e = s.create_edge(f, i0).unwrap();
    s.delete_gate(g);
    assert!(g.get(&s.gates).is_none());
    assert!(i0.get(&s.nodes).is_none());
    assert!(i1.get(&s.nodes).is_none());
    assert!(o.get(&s.nodes).is_none());
    assert!(e.get(&s.edges).is_none());
    // the free node outlives its neighbour gate
    assert!(f.get(&s.nodes).is_some());
    assert_eq!(s.nodes.live_count(), 1);
    assert_eq!(s.edges.live_count(), 0);
}

#[test]
fn second_incoming_edge_is_rejected() {
    let mut s = GraphStore::new();
    let a = s.create_node(Vec2i::new(0, 0));
    let b = s.create_node(Vec2i::new(100, 0));
    let c = s.create_node(Vec2i::new(0, 100));
    assert!(s.create_edge(a, b).is_some());
    // b already has a writer: a second incoming edge would make delivery
    // order ambiguous, so creation refuses it
    assert!(s.create_edge(c, b).is_none());
    assert_eq!(s.edges.live_count(), 1);
    // fan-out from one source is fine
    assert!(s.create_edge(a, c).is_some());
}

#[test]
fn edge_to_or_from_a_deleted_node_is_rejected() {
    let mut s = GraphStore::new();
    let a = s.create_node(Vec2i::new(0, 0));
    let b = s.create_node(Vec2i::new(100, 0));
    s.delete_node(b);
    assert!(s.create_edge(a, b).is_none());
    assert!(s.create_edge(b, a).is_none());
    assert_eq!(s.edges.live_count(), 0);
}

#[test]
fn handles_stay_stable_across_deletion() {
    let mut s = GraphStore::new();
    let a = s.create_node(Vec2i::new(0, 0));
    let b = s.create_node(Vec2i::new(100, 0));
    let c = s.create_node(Vec2i::new(200, 0));
    s.delete_node(b);
    // a and c still resolve to their own data; b reads as gone, never as
    // some other node
    assert_eq!(a.get(&s.nodes).unwrap().pos, Vec2i::new(0, 0));
    assert!(b.get(&s.nodes).is_none());
    assert_eq!(c.get(&s.nodes).unwrap().pos, Vec2i::new(200, 0));
    // a later creation does not resurrect b's handle
    let d = s.create_node(Vec2i::new(300, 0));
    assert!(b.get(&s.nodes).is_none());
    assert_eq!(d.get(&s.nodes).unwrap().pos, Vec2i::new(300, 0));
}

#[test]
fn sweep_removes_dangling_edges() {
    let mut s = GraphStore::new();
    let a = s.create_node(Vec2i::new(0, 0));
    let b = s.create_node(Vec2i::new(100, 0));
    let e = s.create_edge(a, b).unwrap();
    s.sweep();
    assert!(e.get(&s.edges).is_some()); // nothing dangles yet
    s.delete_node(b); // cascade already removes the edge ...
    let e2 = s.create_edge(a, a).unwrap();
    s.sweep(); // ... and the sweep finds nothing left to heal
    assert!(e.get(&s.edges).is_none());
    assert!(e2.get(&s.edges).is_some());
}

#[test]
fn is_output_node_distinguishes_children() {
    let mut s = GraphStore::new();
    let f = s.create_node(Vec2i::new(-300, 0));
    let g = s.create_gate(GateType::Xor, Vec2i::new(0, 0), Vec2i::new(120, 120));
    let gate = g.get(&s.gates).unwrap();
    let i0 = gate.inputs[0];
    let o = gate.output;
    assert!(s.is_output_node(o));
    assert!(!s.is_output_node(i0));
    assert!(!s.is_output_node(f));
    s.delete_gate(g);
    assert!(!s.is_output_node(o));
}

#[test]
fn move_gate_to_relayouts_children_and_keeps_values() {
    let mut s = GraphStore::new();
    let g = s.create_gate(GateType::And, Vec2i::new(0, 0), Vec2i::new(120, 120));
    let gate = g.get(&s.gates).unwrap();
    let i0 = gate.inputs[0];
    let i1 = gate.inputs[1];
    let o = gate.output;
    s.set_node_value(i0, true);
    s.move_gate_to(g, Vec2i::new(1000, -500));
    assert_eq!(g.get(&s.gates).unwrap().pos, Vec2i::new(1000, -500));
    assert_eq!(i0.get(&s.nodes).unwrap().pos, Vec2i::new(940, -480));
    assert_eq!(i1.get(&s.nodes).unwrap().pos, Vec2i::new(940, -520));
    assert_eq!(o.get(&s.nodes).unwrap().pos, Vec2i::new(1060, -500));
    assert!(i0.get(&s.nodes).unwrap().value);
    assert!(!i1.get(&s.nodes).unwrap().value);
}
