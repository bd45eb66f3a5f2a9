//! The hit tester: pure geometric queries against the current graph, with
//! no mutation.
//!
//! All three queries scan their arena in slot (creation) order and return
//! the first match; there is no closest-match tie-breaking. An edge is only
//! tested while both of its endpoints resolve.

use vstd::prelude::*;

use crate::edge::Edge;
use crate::gate::Gate;
use crate::geometry::{
    edge_hovered, edge_hovered_exec, in_gate_box, in_gate_box_exec, in_world, node_hovered,
    node_hovered_exec, Vec2i, NODE_RADIUS,
};
use crate::graph::{edge_resolvable, GraphStore};
use crate::id::Id;
use crate::node::Node;

verus! {

/// The first node slot at or after `i` whose disc strictly contains `p`.
pub open spec fn node_hit_from(s: GraphStore, p: Vec2i, i: int) -> Option<int>
    decreases s.nodes@.len() - i,
{
    if i >= s.nodes@.len() {
        None
    } else if s.nodes.live(i) && node_hovered(s.nodes.at(i).pos, p) {
        Some(i)
    } else {
        node_hit_from(s, p, i + 1)
    }
}

/// The node the pointer hovers: the first live node, in creation order,
/// whose disc strictly contains `p`.
pub open spec fn node_hit_spec(s: GraphStore, p: Vec2i) -> Option<int> {
    node_hit_from(s, p, 0)
}

/// The first edge slot at or after `i` that resolves and is hovered at `p`.
pub open spec fn edge_hit_from(s: GraphStore, p: Vec2i, i: int) -> Option<int>
    decreases s.edges@.len() - i,
{
    if i >= s.edges@.len() {
        None
    } else if s.edges.live(i) && edge_resolvable(s, s.edges.at(i)) && edge_hovered(
        s.nodes.at(s.edges.at(i).from.id as int).pos,
        s.nodes.at(s.edges.at(i).to.id as int).pos,
        p,
    ) {
        Some(i)
    } else {
        edge_hit_from(s, p, i + 1)
    }
}

/// The edge the pointer hovers, first match in creation order.
pub open spec fn edge_hit_spec(s: GraphStore, p: Vec2i) -> Option<int> {
    edge_hit_from(s, p, 0)
}

/// The first gate slot at or after `i` whose box strictly contains `p`.
pub open spec fn gate_hit_from(s: GraphStore, p: Vec2i, i: int) -> Option<int>
    decreases s.gates@.len() - i,
{
    if i >= s.gates@.len() {
        None
    } else if s.gates.live(i) && in_gate_box(s.gates.at(i).pos, s.gates.at(i).size, p) {
        Some(i)
    } else {
        gate_hit_from(s, p, i + 1)
    }
}

/// Which gate the pointer is inside, first match in creation order.
pub open spec fn gate_hit_spec(s: GraphStore, p: Vec2i) -> Option<int> {
    gate_hit_from(s, p, 0)
}

/// Runtime node query, matching [`node_hit_spec`].
#[verifier::loop_isolation(false)]
pub fn node_hit(s: &GraphStore, p: Vec2i) -> (r: Option<Id<Node>>)
    requires
        s.wf(),
        in_world(p),
    ensures
        r matches Some(h) ==> node_hit_spec(*s, p) == Some(h.id as int),
        r is None ==> node_hit_spec(*s, p) is None,
{
    let n = s.nodes.len();
    let mut i: usize = 0;
    while i < n
        invariant
            node_hit_spec(*s, p) == node_hit_from(*s, p, i as int),
        decreases n - i,
    {
        let h: Id<Node> = Id::at(i);
        match h.get(&s.nodes) {
            Some(node) => {
                if node_hovered_exec(node.pos, p) {
                    return Some(h);
                }
            },
            None => {},
        }
        i += 1;
    }
    None
}

/// Runtime edge query, matching [`edge_hit_spec`]. Suppression while a node
/// is hovered is the caller's business (the hover pass), not this query's.
#[verifier::loop_isolation(false)]
pub fn edge_hit(s: &GraphStore, p: Vec2i) -> (r: Option<Id<Edge>>)
    requires
        s.wf(),
        in_world(p),
    ensures
        r matches Some(h) ==> edge_hit_spec(*s, p) == Some(h.id as int),
        r is None ==> edge_hit_spec(*s, p) is None,
{
    let n = s.edges.len();
    let mut i: usize = 0;
    while i < n
        invariant
            edge_hit_spec(*s, p) == edge_hit_from(*s, p, i as int),
        decreases n - i,
    {
        let h: Id<Edge> = Id::at(i);
        match h.get(&s.edges) {
            Some(e) => {
                match (e.from.get(&s.nodes), e.to.get(&s.nodes)) {
                    (Some(a), Some(b)) => {
                        if edge_hovered_exec(a.pos, b.pos, p) {
                            return Some(h);
                        }
                    },
                    _ => {},
                }
            },
            None => {},
        }
        i += 1;
    }
    None
}

/// Runtime gate query, matching [`gate_hit_spec`].
#[verifier::loop_isolation(false)]
pub fn gate_hit(s: &GraphStore, p: Vec2i) -> (r: Option<Id<Gate>>)
    requires
        s.wf(),
    ensures
        r matches Some(h) ==> gate_hit_spec(*s, p) == Some(h.id as int),
        r is None ==> gate_hit_spec(*s, p) is None,
{
    let n = s.gates.len();
    let mut i: usize = 0;
    while i < n
        invariant
            gate_hit_spec(*s, p) == gate_hit_from(*s, p, i as int),
        decreases n - i,
    {
        let h: Id<Gate> = Id::at(i);
        match h.get(&s.gates) {
            Some(g) => {
                if in_gate_box_exec(g.pos, g.size, p) {
                    return Some(h);
                }
            },
            None => {},
        }
        i += 1;
    }
    None
}

/// What a node-hit answer means, slot by slot: a hit is live, strictly
/// inside the radius, and first in creation order; a miss means no live
/// node's disc contains the point.
pub proof fn lemma_node_hit_props(s: GraphStore, p: Vec2i, i: int)
    requires
        0 <= i <= s.nodes@.len(),
    ensures
        node_hit_from(s, p, i) matches Some(j) ==> i <= j < s.nodes@.len() && s.nodes.live(j)
            && node_hovered(s.nodes.at(j).pos, p) && forall|m: int|
            i <= m < j ==> !(s.nodes.live(m) && node_hovered(s.nodes.at(m).pos, p)),
        node_hit_from(s, p, i) is None ==> forall|m: int|
            i <= m < s.nodes@.len() ==> !(s.nodes.live(m) && node_hovered(s.nodes.at(m).pos, p)),
    decreases s.nodes@.len() - i,
{
    if i < s.nodes@.len() {
        if !(s.nodes.live(i) && node_hovered(s.nodes.at(i).pos, p)) {
            lemma_node_hit_props(s, p, i + 1);
        }
    }
}

/// A gate-hit answer names a live gate whose box strictly contains the
/// point.
pub proof fn lemma_gate_hit_props(s: GraphStore, p: Vec2i, i: int)
    requires
        0 <= i <= s.gates@.len(),
    ensures
        gate_hit_from(s, p, i) matches Some(j) ==> i <= j < s.gates@.len() && s.gates.live(j)
            && in_gate_box(s.gates.at(j).pos, s.gates.at(j).size, p),
    decreases s.gates@.len() - i,
{
    if i < s.gates@.len() {
        if !(s.gates.live(i) && in_gate_box(s.gates.at(i).pos, s.gates.at(i).size, p)) {
            lemma_gate_hit_props(s, p, i + 1);
        }
    }
}

/// The hover boundary is exclusive: a node whose center lies at distance
/// exactly [`NODE_RADIUS`] from the pointer is never the hover answer,
/// while any live node strictly inside its radius guarantees some node is
/// hovered.
pub proof fn lemma_hover_boundary(s: GraphStore, p: Vec2i, j: int)
    requires
        s.nodes.live(j),
    ensures
        crate::geometry::dist2(p, s.nodes.at(j).pos) >= NODE_RADIUS * NODE_RADIUS
            ==> node_hit_spec(s, p) != Some(j),
        crate::geometry::dist2(p, s.nodes.at(j).pos) < NODE_RADIUS * NODE_RADIUS
            ==> node_hit_spec(s, p) is Some,
{
    lemma_node_hit_props(s, p, 0);
}

} // verus!
