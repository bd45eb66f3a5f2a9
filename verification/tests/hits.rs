use logic_sandbox::gate::GateType;
use logic_sandbox::geometry::Vec2i;
use logic_sandbox::graph::GraphStore;
use logic_sandbox::hit::{edge_hit, gate_hit, node_hit};

#[test]
fn hover_boundary_is_exclusive() {
    let mut s = GraphStore::new();
    let n = s.create_node(Vec2i::new(0, 0));
    // at exactly the radius: not hovered
    assert!(node_hit(&s, Vec2i::new(15, 0)).is_none());
    assert!(node_hit(&s, Vec2i::new(0, -15)).is_none());
    // one unit inside: hovered
    assert_eq!(node_hit(&s, Vec2i::new(14, 0)).unwrap().id, n.id);
    assert_eq!(node_hit(&s, Vec2i::new(0, 0)).unwrap().id, n.id);
    // (10, 11): squared distance 221 < 225
    assert_eq!(node_hit(&s, Vec2i::new(10, 11)).unwrap().id, n.id);
    // (10, 12): squared distance 244 >= 225
    assert!(node_hit(&s, Vec2i::new(10, 12)).is_none());
}

#[test]
fn first_created_node_wins_overlaps() {
    let mut s = GraphStore::new();
    let n1 = s.create_node(Vec2i::new(0, 0));
    let n2 = s.create_node(Vec2i::new(5, 0));
    // (4, 0) is inside both discs; creation order decides
    assert_eq!(node_hit(&s, Vec2i::new(4, 0)).unwrap().id, n1.id);
    s.delete_node(n1);
    assert_eq!(node_hit(&s, Vec2i::new(4, 0)).unwrap().id, n2.id);
}

#[test]
fn edge_hit_width_is_strict() {
    let mut s = GraphStore::new();
    let a = s.create_node(Vec2i::new(0, 0));
    let b = s.create_node(Vec2i::new(100, 0));
    let e = s.create_edge(a, b).unwrap();
    // 4 units above the midpoint: within the 5-unit width
    assert_eq!(edge_hit(&s, Vec2i::new(50, 4)).unwrap().id, e.id);
    // exactly 5 units: out (strict), and both endpoints are far
    assert!(edge_hit(&s, Vec2i::new(50, 5)).is_none());
}

#[test]
fn edge_hit_is_a_line_approximation_past_the_segment_ends() {
    // the perpendicular distance is measured against the infinite line, so
    // a point beyond an endpoint but close to the line still hits unless
    // it is also far from both endpoints
    let mut s = GraphStore::new();
    let a = s.create_node(Vec2i::new(0, 0));
    let b = s.create_node(Vec2i::new(100, 0));
    let e = s.create_edge(a, b).unwrap();
    assert_eq!(edge_hit(&s, Vec2i::new(130, 2)).unwrap().id, e.id);
    // close to an endpoint counts too, whatever the angle
    assert_eq!(edge_hit(&s, Vec2i::new(103, 3)).unwrap().id, e.id);
}

#[test]
fn self_loop_edge_hit_by_endpoint_distance_only() {
    let mut s = GraphStore::new();
    let a = s.create_node(Vec2i::new(0, 0));
    let e = s.create_edge(a, a).unwrap();
    assert_eq!(edge_hit(&s, Vec2i::new(3, 3)).unwrap().id, e.id);
    assert!(edge_hit(&s, Vec2i::new(4, 3)).is_none()); // 25 >= 25
}

#[test]
fn edge_with_deleted_endpoint_is_not_hit() {
    let mut s = GraphStore::new();
    let a = s.create_node(Vec2i::new(0, 0));
    let b = s.create_node(Vec2i::new(100, 0));
    s.create_edge(a, b).unwrap();
    s.delete_node(b);
    assert!(edge_hit(&s, Vec2i::new(50, 0)).is_none());
}

#[test]
fn gate_box_containment_is_strict() {
    let mut s = GraphStore::new();
    let g = s.create_gate(GateType::Or, Vec2i::new(0, 0), Vec2i::new(120, 120));
    assert_eq!(gate_hit(&s, Vec2i::new(0, 0)).unwrap().id, g.id);
    assert_eq!(gate_hit(&s, Vec2i::new(59, -59)).unwrap().id, g.id);
    // on the border: out
    assert!(gate_hit(&s, Vec2i::new(60, 0)).is_none());
    assert!(gate_hit(&s, Vec2i::new(0, -60)).is_none());
    assert!(gate_hit(&s, Vec2i::new(61, 61)).is_none());
}
