//! The interaction controller: small, independent gesture state machines,
//! polled once per tick from the pointer position and the buttons' edge
//! events, mutating the graph only through the store's public operations.
//!
//! Gestures: hover (observational), node toggle on left press, edge
//! creation on right press/release, edge deletion on right release, and
//! gate dragging on left press/hold/release with grid snapping.

use vstd::prelude::*;

use crate::edge::Edge;
use crate::gate::Gate;
use crate::geometry::{
    clamp_gate, in_world, snap, Vec2i, MAX_COORD, MAX_GATE_POS,
};
use crate::graph::GraphStore;
use crate::hit::{edge_hit, edge_hit_spec, gate_hit, gate_hit_spec, node_hit, node_hit_spec};
use crate::id::Id;
use crate::node::Node;

verus! {

/// One button's transition events for the current tick.
#[derive(Clone, Copy, PartialEq, Eq, Structural)]
pub struct ButtonInput {
    pub just_pressed: bool,
    pub just_released: bool,
}

/// Everything the controller samples in one tick: the pointer in world
/// coordinates and the left/right button edges.
#[derive(Clone, Copy, PartialEq, Eq, Structural)]
pub struct TickInput {
    pub pointer: Vec2i,
    pub left: ButtonInput,
    pub right: ButtonInput,
}

/// The transient interaction state, recomputed or mutated every tick and
/// threaded explicitly through the tick — never a global.
pub struct InteractionState {
    /// The node under the pointer, if any; drives highlighting and gates
    /// the other gestures.
    pub hovered_node: Option<Id<Node>>,
    /// The edge under the pointer; suppressed whenever a node is hovered.
    pub hovered_edge: Option<Id<Edge>>,
    /// The source node of an in-progress edge-creation gesture.
    pub selected_node: Option<Id<Node>>,
    /// A gate being dragged, with the grab offset (gate position minus
    /// pointer at press time) that keeps it from jumping under the pointer.
    pub moving_gate: Option<(Id<Gate>, Vec2i)>,
}

/// Bounds on the stored grab offset; they follow from how the drag gesture
/// forms it and keep the drag arithmetic in range.
pub open spec fn st_wf(st: InteractionState) -> bool {
    st.moving_gate matches Some(t) ==> ({
        &&& -(MAX_GATE_POS + MAX_COORD) <= t.1.x <= MAX_GATE_POS + MAX_COORD
        &&& -(MAX_GATE_POS + MAX_COORD) <= t.1.y <= MAX_GATE_POS + MAX_COORD
    })
}

/// Whether an optional handle points at the slot an optional hit answer
/// names.
pub open spec fn opt_id_is<T>(r: Option<Id<T>>, s: Option<int>) -> bool {
    match (r, s) {
        (Some(h), Some(i)) => h.id == i,
        (None, None) => true,
        _ => false,
    }
}

/// Where a dragged gate lands for a pointer and grab offset: the grabbed
/// position snapped to the grid, clamped into the box of legal gate centers.
pub open spec fn drag_target(pointer: Vec2i, off: Vec2i) -> Vec2i {
    clamp_gate(snap(Vec2i { x: (pointer.x + off.x) as i64, y: (pointer.y + off.y) as i64 }))
}

impl InteractionState {
    /// The idle state: nothing hovered, no gesture in progress.
    pub fn new() -> (st: InteractionState)
        ensures
            st.hovered_node is None,
            st.hovered_edge is None,
            st.selected_node is None,
            st.moving_gate is None,
            st_wf(st),
    {
        InteractionState {
            hovered_node: None,
            hovered_edge: None,
            selected_node: None,
            moving_gate: None,
        }
    }
}

/// What the node-hover pass does to the state: the hovered node becomes
/// the hit tester's answer against `s`, everything else is untouched.
pub open spec fn hover_node_post(
    s: GraphStore,
    pointer: Vec2i,
    st0: InteractionState,
    st1: InteractionState,
) -> bool {
    &&& opt_id_is(st1.hovered_node, node_hit_spec(s, pointer))
    &&& st1.hovered_edge == st0.hovered_edge
    &&& st1.selected_node == st0.selected_node
    &&& st1.moving_gate == st0.moving_gate
}

/// What the edge-hover pass does to the state: the hovered edge becomes
/// the hit tester's answer — but only while no node is hovered, since
/// nodes take priority near their incident wires.
pub open spec fn hover_edge_post(
    s: GraphStore,
    pointer: Vec2i,
    st0: InteractionState,
    st1: InteractionState,
) -> bool {
    &&& st0.hovered_node is Some ==> st1.hovered_edge is None
    &&& st0.hovered_node is None ==> opt_id_is(st1.hovered_edge, edge_hit_spec(s, pointer))
    &&& st1.hovered_node == st0.hovered_node
    &&& st1.selected_node == st0.selected_node
    &&& st1.moving_gate == st0.moving_gate
}

/// The node-hover pass: records the first node under the pointer.
pub fn hover_node(s: &GraphStore, st: &mut InteractionState, pointer: Vec2i)
    requires
        s.wf(),
        in_world(pointer),
    ensures
        hover_node_post(*s, pointer, *old(st), *final(st)),
{
    st.hovered_node = node_hit(s, pointer);
}

/// The edge-hover pass; [`hover_edge_post`] states its effect.
pub fn hover_edge(s: &GraphStore, st: &mut InteractionState, pointer: Vec2i)
    requires
        s.wf(),
        in_world(pointer),
    ensures
        hover_edge_post(*s, pointer, *old(st), *final(st)),
{
    if st.hovered_node.is_none() {
        st.hovered_edge = edge_hit(s, pointer);
    } else {
        st.hovered_edge = None;
    }
}

/// What the toggle gesture does to the store against an interaction state
/// `st`: on a left press over a live, non-output hovered node that node's
/// value flips; in every other case nothing changes.
pub open spec fn toggle_rel(
    pre: GraphStore,
    post: GraphStore,
    st: InteractionState,
    input: TickInput,
) -> bool {
    &&& post.edges == pre.edges
    &&& post.gates == pre.gates
    &&& post.nodes@.len() == pre.nodes@.len()
    &&& ({
        let acts = input.left.just_pressed && (st.hovered_node matches Some(h) && pre.nodes.live(
            h.id as int,
        ) && !pre.is_gate_output(h.id as int));
        &&& acts ==> ({
            let h = st.hovered_node->Some_0;
            post.nodes@ =~= pre.nodes@.update(
                h.id as int,
                Some(
                    Node {
                        value: !pre.nodes.at(h.id as int).value,
                        pos: pre.nodes.at(h.id as int).pos,
                    },
                ),
            )
        })
        &&& !acts ==> post.nodes@ =~= pre.nodes@
    })
}

/// The toggle gesture: on left press, flip the hovered node — unless it is
/// a gate's output, which gate evaluation would overwrite next tick anyway.
/// [`toggle_rel`] states the full effect.
pub fn toggle_node(s: &mut GraphStore, st: &InteractionState, input: &TickInput)
    requires
        old(s).wf(),
    ensures
        final(s).wf(),
        toggle_rel(*old(s), *final(s), *st, *input),
{
    if input.left.just_pressed {
        match st.hovered_node {
            Some(h) => {
                if !s.is_output_node(h) {
                    let flipped: Option<bool> = match h.get(&s.nodes) {
                        Some(node) => Some(!node.value),
                        None => None,
                    };
                    match flipped {
                        Some(v) => s.set_node_value(h, v),
                        None => (),
                    }
                }
            },
            None => (),
        }
    }
}

/// What the edge-creation gesture does against the states it reads. Right
/// press remembers the hovered node (or nothing) as the pending source.
/// Right release creates `source -> hovered` when a source is pending and
/// a node is hovered — self-loops included — and returns to idle whatever
/// happened; releasing over empty canvas quietly cancels, and the store
/// may still refuse the edge (stale endpoint, or a second incoming edge
/// for the destination).
pub open spec fn create_edges_rel(
    pre: GraphStore,
    st0: InteractionState,
    post: GraphStore,
    st1: InteractionState,
    input: TickInput,
) -> bool {
    &&& post.nodes == pre.nodes
    &&& post.gates == pre.gates
    &&& st1.hovered_node == st0.hovered_node
    &&& st1.hovered_edge == st0.hovered_edge
    &&& st1.moving_gate == st0.moving_gate
    &&& input.right.just_pressed ==> st1.selected_node == st0.hovered_node && post.edges
        == pre.edges
    &&& !input.right.just_pressed && !input.right.just_released ==> st1.selected_node
        == st0.selected_node && post.edges == pre.edges
    &&& !input.right.just_pressed && input.right.just_released ==> ({
        match st0.selected_node {
            None => st1.selected_node is None && post.edges == pre.edges,
            Some(src) => {
                &&& st1.selected_node is None
                &&& match st0.hovered_node {
                    None => post.edges == pre.edges,
                    Some(dst) => {
                        let ok = pre.nodes.live(src.id as int) && pre.nodes.live(dst.id as int)
                            && !pre.has_incoming(dst.id as int);
                        &&& ok ==> post.edges@ =~= pre.edges@.push(
                            Some(
                                Edge {
                                    from: src,
                                    to: dst,
                                    timer: crate::edge::EdgeTimer {
                                        elapsed: crate::edge::EDGE_DELAY_MS,
                                    },
                                },
                            ),
                        )
                        &&& !ok ==> post.edges@ =~= pre.edges@
                    },
                }
            },
        }
    })
}

/// The edge-creation gesture; [`create_edges_rel`] states its effect.
pub fn create_edges(s: &mut GraphStore, st: &mut InteractionState, input: &TickInput)
    requires
        old(s).wf(),
    ensures
        final(s).wf(),
        create_edges_rel(*old(s), *old(st), *final(s), *final(st), *input),
{
    if input.right.just_pressed {
        st.selected_node = st.hovered_node;
    } else if input.right.just_released {
        match st.selected_node {
            Some(src) => {
                match st.hovered_node {
                    Some(dst) => {
                        let _ = s.create_edge(src, dst);
                    },
                    None => (),
                }
                st.selected_node = None;
            },
            None => (),
        }
    }
}

/// What the edge-deletion gesture does to the store against an
/// interaction state `st`: on right release over a hovered live edge that
/// edge goes; in every other case nothing changes.
pub open spec fn delete_edges_rel(
    pre: GraphStore,
    post: GraphStore,
    st: InteractionState,
    input: TickInput,
) -> bool {
    &&& post.nodes == pre.nodes
    &&& post.gates == pre.gates
    &&& post.edges@.len() == pre.edges@.len()
    &&& ({
        let acts = input.right.just_released && (st.hovered_edge matches Some(h)
            && pre.edges.live(h.id as int));
        &&& acts ==> post.edges@ =~= pre.edges@.update(st.hovered_edge->Some_0.id as int, None)
        &&& !acts ==> post.edges@ =~= pre.edges@
    })
}

/// The edge-deletion gesture: on right release, delete the hovered edge.
/// Edge hover is suppressed while a node is hovered and creation requires a
/// node hovered at press time, so creation and deletion never both fire on
/// one gesture. [`delete_edges_rel`] states the full effect.
pub fn delete_edges(s: &mut GraphStore, st: &InteractionState, input: &TickInput)
    requires
        old(s).wf(),
    ensures
        final(s).wf(),
        delete_edges_rel(*old(s), *final(s), *st, *input),
{
    if input.right.just_released {
        match st.hovered_edge {
            Some(h) => s.delete_edge(h),
            None => (),
        }
    }
}

/// What gate dragging does against the states it reads. Left press over a
/// gate's box grabs it, keeping the offset between gate and pointer; left
/// release lets go. While a gate is held, every tick moves it to the
/// pointer plus that offset, snapped to the grid and clamped to the
/// canvas, and the store re-lays its child nodes out against the new box.
pub open spec fn move_gate_rel(
    pre: GraphStore,
    st0: InteractionState,
    post: GraphStore,
    st1: InteractionState,
    input: TickInput,
) -> bool {
    &&& st1.hovered_node == st0.hovered_node
    &&& st1.hovered_edge == st0.hovered_edge
    &&& st1.selected_node == st0.selected_node
    &&& post.edges == pre.edges
    &&& post.nodes@.len() == pre.nodes@.len()
    &&& post.gates@.len() == pre.gates@.len()
    // the grab/release transition
    &&& input.left.just_pressed ==> ({
        match gate_hit_spec(pre, input.pointer) {
            Some(i) => st1.moving_gate matches Some(t) && t.0.id == i && t.1 == (Vec2i {
                x: (pre.gates.at(i).pos.x - input.pointer.x) as i64,
                y: (pre.gates.at(i).pos.y - input.pointer.y) as i64,
            }),
            None => st1.moving_gate == st0.moving_gate,
        }
    })
    &&& !input.left.just_pressed && input.left.just_released ==> st1.moving_gate is None
    &&& !input.left.just_pressed && !input.left.just_released ==> st1.moving_gate
        == st0.moving_gate
    // the drag step, against the transitioned state
    &&& ({
        match st1.moving_gate {
            Some(t) => {
                let hid = t.0.id as int;
                let target = drag_target(input.pointer, t.1);
                &&& !pre.gates.live(hid) ==> post == pre
                &&& pre.gates.live(hid) ==> ({
                    let g = pre.gates.at(hid);
                    &&& post.gates@ =~= pre.gates@.update(hid, Some(Gate { pos: target, ..g }))
                    &&& forall|n: int|
                        0 <= n < pre.nodes@.len() && !crate::graph::gate_owns(g, n)
                            ==> post.nodes@[n] == pre.nodes@[n]
                    &&& forall|k: int|
                        0 <= k < g.inputs.len() ==> ({
                            let c = (#[trigger] g.inputs[k]).id as int;
                            &&& pre.nodes.live(c) ==> post.nodes@[c] == Some(
                                Node {
                                    value: pre.nodes.at(c).value,
                                    pos: crate::gate::gate_input_pos(g.kind, target, g.size, k),
                                },
                            )
                            &&& !pre.nodes.live(c) ==> post.nodes@[c] == pre.nodes@[c]
                        })
                    &&& ({
                        let c = g.output.id as int;
                        &&& pre.nodes.live(c) ==> post.nodes@[c] == Some(
                            Node {
                                value: pre.nodes.at(c).value,
                                pos: crate::gate::gate_output_pos(target, g.size),
                            },
                        )
                        &&& !pre.nodes.live(c) ==> post.nodes@[c] == pre.nodes@[c]
                    })
                })
            },
            None => post == pre,
        }
    })
}

/// The drag gesture for gates; [`move_gate_rel`] states its effect.
pub fn move_gate(s: &mut GraphStore, st: &mut InteractionState, input: &TickInput)
    requires
        old(s).wf(),
        st_wf(*old(st)),
        in_world(input.pointer),
    ensures
        final(s).wf(),
        st_wf(*final(st)),
        move_gate_rel(*old(s), *old(st), *final(s), *final(st), *input),
{
    if input.left.just_pressed {
        match gate_hit(s, input.pointer) {
            Some(h) => {
                proof {
                    crate::hit::lemma_gate_hit_props(*s, input.pointer, 0);
                }
                match h.get(&s.gates) {
                    Some(g) => {
                        let off = Vec2i {
                            x: g.pos.x - input.pointer.x,
                            y: g.pos.y - input.pointer.y,
                        };
                        st.moving_gate = Some((h, off));
                    },
                    None => {
                        proof {
                            assert(false);
                        }
                    },
                }
            },
            None => (),
        }
    } else if input.left.just_released {
        st.moving_gate = None;
    }
    match st.moving_gate {
        Some((h, off)) => {
            if h.get(&s.gates).is_some() {
                let grabbed = Vec2i { x: input.pointer.x + off.x, y: input.pointer.y + off.y };
                let target = crate::geometry::clamp_gate_exec(crate::geometry::snap_exec(grabbed));
                s.move_gate_to(h, target);
            }
        },
        None => (),
    }
}

} // verus!
