//! One full simulation tick, in the fixed order of the design: hover, then
//! the gesture handlers, then edge propagation, then gate evaluation, then
//! the consistency sweep. Exactly one phase touches the shared state at a
//! time, and [`frame_rel`] chains each phase's own relation into the
//! tick's full effect.

use vstd::prelude::*;

use crate::geometry::in_world;
use crate::graph::GraphStore;
use crate::hit::{edge_hit_spec, node_hit_spec};
use crate::interact::{
    create_edges, create_edges_rel, delete_edges, delete_edges_rel, hover_edge, hover_edge_post,
    hover_node, hover_node_post, move_gate, move_gate_rel, opt_id_is, st_wf, toggle_node,
    toggle_rel, InteractionState, TickInput,
};
use crate::propagate::{gate_phase_rel, process_gates, propagate, propagate_rel};

verus! {

/// What one tick does, as the chain of the phase relations through the
/// intermediate states: hover answers are taken against the graph the tick
/// began with, the gestures read those answers and mutate the store in
/// turn, and propagation, gate evaluation and the sweep close the tick.
pub open spec fn frame_rel(
    s0: GraphStore,
    st0: InteractionState,
    input: TickInput,
    dt: u64,
    s9: GraphStore,
    st9: InteractionState,
) -> bool {
    exists|
        sta: InteractionState,
        stb: InteractionState,
        stc: InteractionState,
        s1: GraphStore,
        s2: GraphStore,
        s3: GraphStore,
        s4: GraphStore,
        s5: GraphStore,
        s6: GraphStore,
    |
        {
            &&& #[trigger] hover_node_post(s0, input.pointer, st0, sta)
            &&& #[trigger] hover_edge_post(s0, input.pointer, sta, stb)
            &&& #[trigger] toggle_rel(s0, s1, stb, input)
            &&& #[trigger] create_edges_rel(s1, stb, s2, stc, input)
            &&& #[trigger] delete_edges_rel(s2, s3, stc, input)
            &&& #[trigger] move_gate_rel(s3, stc, s4, st9, input)
            &&& #[trigger] propagate_rel(s4, s5, dt)
            &&& #[trigger] gate_phase_rel(s5, s6)
            &&& #[trigger] GraphStore::sweep_rel(s6, s9)
        }
}

/// Runs one tick: hover detection against the tick's initial graph, the
/// five gestures, the two propagation phases, and the sweep, exactly as
/// [`frame_rel`] chains them. Keeps the store and the interaction state
/// well-formed; the hover fields come out as the hit tester answers on the
/// graph the tick began with.
pub fn frame_tick(s: &mut GraphStore, st: &mut InteractionState, input: &TickInput, dt_ms: u64)
    requires
        old(s).wf(),
        st_wf(*old(st)),
        in_world(input.pointer),
    ensures
        final(s).wf(),
        st_wf(*final(st)),
        frame_rel(*old(s), *old(st), *input, dt_ms, *final(s), *final(st)),
        opt_id_is(final(st).hovered_node, node_hit_spec(*old(s), input.pointer)),
        node_hit_spec(*old(s), input.pointer) is Some ==> final(st).hovered_edge is None,
        node_hit_spec(*old(s), input.pointer) is None ==> opt_id_is(
            final(st).hovered_edge,
            edge_hit_spec(*old(s), input.pointer),
        ),
{
    hover_node(s, st, input.pointer);
    let ghost sta = *st;
    hover_edge(s, st, input.pointer);
    let ghost stb = *st;
    toggle_node(s, st, input);
    let ghost s1 = *s;
    create_edges(s, st, input);
    let ghost s2 = *s;
    let ghost stc = *st;
    delete_edges(s, st, input);
    let ghost s3 = *s;
    move_gate(s, st, input);
    let ghost s4 = *s;
    propagate(s, dt_ms);
    let ghost s5 = *s;
    process_gates(s);
    let ghost s6 = *s;
    s.sweep();
    proof {
        assert(hover_node_post(*old(s), input.pointer, *old(st), sta));
        assert(hover_edge_post(*old(s), input.pointer, sta, stb));
        assert(toggle_rel(*old(s), s1, stb, *input));
        assert(create_edges_rel(s1, stb, s2, stc, *input));
        assert(delete_edges_rel(s2, s3, stc, *input));
        assert(move_gate_rel(s3, stc, s4, *st, *input));
        assert(propagate_rel(s4, s5, dt_ms));
        assert(gate_phase_rel(s5, s6));
        assert(GraphStore::sweep_rel(s6, *s));
    }
}

} // verus!
