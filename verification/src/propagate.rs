//! The propagator: one simulation tick in two fixed phases.
//!
//! First the edge phase ([`propagate`]): every edge's delay timer advances
//! against the values its endpoints had when the tick began, and a timer
//! that finishes this tick copies the source value to the destination. Then
//! a gate phase ([`process_gates`]): every gate's output node is
//! unconditionally recomputed from its input values at the start of the
//! phase. Edges before gates is the fixed reference ordering of a tick, and
//! inside each phase every read is against the phase's initial state, so
//! slot order never changes the outcome.

use vstd::prelude::*;

use crate::edge::{elapsed_after, value_after, Edge, EdgeTimer, EDGE_DELAY_MS};
use crate::gate::{eval_kind, Gate, GateType};
use crate::graph::{edge_resolvable, GraphStore};
use crate::id::Id;
use crate::node::Node;

verus! {

/// Whether node slot `n` is the destination of some live, resolvable edge,
/// i.e. a slot the edge phase may write.
pub open spec fn edge_delivery_target(s: GraphStore, n: int) -> bool {
    exists|i: int|
        #![trigger s.edges@[i]]
        s.edges.live(i) && edge_resolvable(s, s.edges.at(i)) && s.edges.at(i).to.id == n
}

/// Whether a gate's output and all of its inputs still resolve.
pub open spec fn gate_resolvable(s: GraphStore, g: Gate) -> bool {
    &&& s.nodes.live(g.output.id as int)
    &&& forall|k: int| 0 <= k < g.inputs.len() ==> s.nodes.live((#[trigger] g.inputs[k]).id as int)
}

/// The value a gate writes this phase: its kind's truth table over the
/// current input values (a `Not` gate reads only its single input).
pub open spec fn gate_out_value(s: GraphStore, g: Gate) -> bool
    recommends
        g.inputs.len() >= 1,
{
    let a = s.nodes.at(g.inputs[0].id as int).value;
    let b = if g.inputs.len() > 1 {
        s.nodes.at(g.inputs[1].id as int).value
    } else {
        a
    };
    eval_kind(g.kind, a, b)
}

/// Whether node slot `n` is the output of some live, resolvable gate, i.e.
/// a slot a gate phase writes.
pub open spec fn gate_write_target(s: GraphStore, n: int) -> bool {
    exists|i: int|
        #![trigger s.gates@[i]]
        s.gates.live(i) && gate_resolvable(s, s.gates.at(i)) && s.gates.at(i).output.id == n
}

/// What one edge phase with tick delta `dt` does to the store: for every
/// live edge whose endpoints resolve, with source value `a`, destination
/// value `b` and timer `t` as the phase begins, the timer becomes
/// [`elapsed_after`]`(a, b, t, dt)` and the destination
/// [`value_after`]`(a, b, t, dt)`; everything else is untouched.
pub open spec fn propagate_rel(pre: GraphStore, post: GraphStore, dt: u64) -> bool {
    &&& post.gates == pre.gates
    &&& post.nodes@.len() == pre.nodes@.len()
    &&& post.edges@.len() == pre.edges@.len()
    &&& forall|i: int|
        pre.edges.live(i) && edge_resolvable(pre, #[trigger] pre.edges.at(i)) ==> ({
            let e = pre.edges.at(i);
            let a = pre.nodes.at(e.from.id as int).value;
            let b = pre.nodes.at(e.to.id as int).value;
            &&& post.edges@[i] == Some(
                Edge {
                    from: e.from,
                    to: e.to,
                    timer: EdgeTimer { elapsed: elapsed_after(a, b, e.timer.elapsed, dt) },
                },
            )
            &&& post.nodes@[e.to.id as int] == Some(
                Node {
                    value: value_after(a, b, e.timer.elapsed, dt),
                    pos: pre.nodes.at(e.to.id as int).pos,
                },
            )
        })
    &&& forall|i: int|
        0 <= i < pre.edges@.len() && !(pre.edges.live(i) && edge_resolvable(pre, pre.edges.at(i)))
            ==> post.edges@[i] == pre.edges@[i]
    &&& forall|n: int|
        0 <= n < pre.nodes@.len() && !edge_delivery_target(pre, n) ==> post.nodes@[n]
            == pre.nodes@[n]
}

/// Assembles [`propagate_rel`] from its clauses; the phase's loop proof
/// establishes each clause separately.
proof fn lemma_propagate_rel_intro(pre: GraphStore, post: GraphStore, dt: u64)
    requires
        post.gates == pre.gates,
        post.nodes@.len() == pre.nodes@.len(),
        post.edges@.len() == pre.edges@.len(),
        forall|i: int|
            pre.edges.live(i) && edge_resolvable(pre, #[trigger] pre.edges.at(i)) ==> ({
                let e = pre.edges.at(i);
                let a = pre.nodes.at(e.from.id as int).value;
                let b = pre.nodes.at(e.to.id as int).value;
                &&& post.edges@[i] == Some(
                    Edge {
                        from: e.from,
                        to: e.to,
                        timer: EdgeTimer { elapsed: elapsed_after(a, b, e.timer.elapsed, dt) },
                    },
                )
                &&& post.nodes@[e.to.id as int] == Some(
                    Node {
                        value: value_after(a, b, e.timer.elapsed, dt),
                        pos: pre.nodes.at(e.to.id as int).pos,
                    },
                )
            }),
        forall|i: int|
            0 <= i < pre.edges@.len() && !(pre.edges.live(i) && edge_resolvable(
                pre,
                pre.edges.at(i),
            )) ==> post.edges@[i] == pre.edges@[i],
        forall|n: int|
            0 <= n < pre.nodes@.len() && !edge_delivery_target(pre, n) ==> post.nodes@[n]
                == pre.nodes@[n],
    ensures
        propagate_rel(pre, post, dt),
{
}

/// The edge phase. A finished timer rests while its endpoint values agree,
/// restarts when they differ, and on the step it finishes delivers the
/// source value exactly once. Every read is against the tick's initial
/// state, so slot order never matters; [`propagate_rel`] states the full
/// effect.
#[verifier::loop_isolation(false)]
#[verifier::rlimit(60)]
pub fn propagate(s: &mut GraphStore, dt_ms: u64)
    requires
        old(s).wf(),
    ensures
        final(s).wf(),
        propagate_rel(*old(s), *final(s), dt_ms),
{
    let n = s.edges.len();
    let mut updates: Vec<Option<(usize, bool, u64)>> = Vec::new();
    let mut i: usize = 0;
    while i < n
        invariant
            *s == *old(s),
            updates@.len() == i,
            i <= n,
            forall|j: int|
                0 <= j < i ==> ({
                    let e = old(s).edges.at(j);
                    if old(s).edges.live(j) && edge_resolvable(*old(s), e) {
                        #[trigger] updates@[j] == Some(
                            (
                                e.to.id,
                                value_after(
                                    old(s).nodes.at(e.from.id as int).value,
                                    old(s).nodes.at(e.to.id as int).value,
                                    e.timer.elapsed,
                                    dt_ms,
                                ),
                                elapsed_after(
                                    old(s).nodes.at(e.from.id as int).value,
                                    old(s).nodes.at(e.to.id as int).value,
                                    e.timer.elapsed,
                                    dt_ms,
                                ),
                            ),
                        )
                    } else {
                        updates@[j] is None
                    }
                }),
        decreases n - i,
    {
        let h: Id<Edge> = Id::at(i);
        let u: Option<(usize, bool, u64)> = match h.get(&s.edges) {
            Some(e) => {
                match (e.from.get(&s.nodes), e.to.get(&s.nodes)) {
                    (Some(a), Some(b)) => {
                        let (t2, v2) = crate::edge::step_timer(
                            a.value,
                            b.value,
                            e.timer.elapsed,
                            dt_ms,
                        );
                        Some((e.to.id, v2, t2))
                    },
                    _ => None,
                }
            },
            None => None,
        };
        updates.push(u);
        i += 1;
    }
    let mut j: usize = 0;
    while j < n
        invariant
            updates@.len() == n,
            j <= n,
            s.wf(),
            s.gates == old(s).gates,
            s.nodes@.len() == old(s).nodes@.len(),
            s.edges@.len() == old(s).edges@.len(),
            forall|m: int|
                0 <= m < n ==> ({
                    let e = old(s).edges.at(m);
                    if old(s).edges.live(m) && edge_resolvable(*old(s), e) {
                        #[trigger] updates@[m] == Some(
                            (
                                e.to.id,
                                value_after(
                                    old(s).nodes.at(e.from.id as int).value,
                                    old(s).nodes.at(e.to.id as int).value,
                                    e.timer.elapsed,
                                    dt_ms,
                                ),
                                elapsed_after(
                                    old(s).nodes.at(e.from.id as int).value,
                                    old(s).nodes.at(e.to.id as int).value,
                                    e.timer.elapsed,
                                    dt_ms,
                                ),
                            ),
                        )
                    } else {
                        updates@[m] is None
                    }
                }),
            forall|m: int|
                0 <= m < j && old(s).edges.live(m) && edge_resolvable(
                    *old(s),
                    #[trigger] old(s).edges.at(m),
                ) ==> ({
                    let e = old(s).edges.at(m);
                    let a = old(s).nodes.at(e.from.id as int).value;
                    let b = old(s).nodes.at(e.to.id as int).value;
                    &&& s.edges@[m] == Some(
                        Edge {
                            from: e.from,
                            to: e.to,
                            timer: EdgeTimer {
                                elapsed: elapsed_after(a, b, e.timer.elapsed, dt_ms),
                            },
                        },
                    )
                    &&& s.nodes@[e.to.id as int] == Some(
                        Node {
                            value: value_after(a, b, e.timer.elapsed, dt_ms),
                            pos: old(s).nodes.at(e.to.id as int).pos,
                        },
                    )
                }),
            forall|m: int|
                j <= m < n && old(s).edges.live(m) && edge_resolvable(
                    *old(s),
                    #[trigger] old(s).edges.at(m),
                ) ==> s.nodes@[old(s).edges.at(m).to.id as int] == old(s).nodes@[old(
                    s,
                ).edges.at(m).to.id as int],
            forall|m: int|
                0 <= m < n && !(old(s).edges.live(m) && edge_resolvable(
                    *old(s),
                    old(s).edges.at(m),
                )) ==> s.edges@[m] == old(s).edges@[m],
            forall|m: int| j <= m < n ==> s.edges@[m] == old(s).edges@[m],
            forall|nn: int|
                0 <= nn < old(s).nodes@.len() && !edge_delivery_target(*old(s), nn)
                    ==> s.nodes@[nn] == old(s).nodes@[nn],
        decreases n - j,
    {
        let h: Id<Edge> = Id::at(j);
        match updates[j] {
            Some((to, v, t)) => {
                proof {
                    assert(old(s).edges.live(j as int) && edge_resolvable(
                        *old(s),
                        old(s).edges.at(j as int),
                    ));
                    assert(edge_delivery_target(*old(s), to as int));
                }
                match h.get_mut(&mut s.edges) {
                    Some(e) => {
                        e.timer.elapsed = t;
                    },
                    None => {},
                }
                s.set_node_value(Id::at(to), v);
            },
            None => {},
        }
        j += 1;
    }
    proof {
        assert(s.gates == old(s).gates);
        assert(s.nodes@.len() == old(s).nodes@.len());
        assert(s.edges@.len() == old(s).edges@.len());
        assert(forall|i: int|
            old(s).edges.live(i) && edge_resolvable(*old(s), #[trigger] old(s).edges.at(i)) ==> ({
                let e = old(s).edges.at(i);
                let a = old(s).nodes.at(e.from.id as int).value;
                let b = old(s).nodes.at(e.to.id as int).value;
                &&& s.edges@[i] == Some(
                    Edge {
                        from: e.from,
                        to: e.to,
                        timer: EdgeTimer { elapsed: elapsed_after(a, b, e.timer.elapsed, dt_ms) },
                    },
                )
                &&& s.nodes@[e.to.id as int] == Some(
                    Node {
                        value: value_after(a, b, e.timer.elapsed, dt_ms),
                        pos: old(s).nodes.at(e.to.id as int).pos,
                    },
                )
            }));
        assert(forall|i: int|
            0 <= i < old(s).edges@.len() && !(old(s).edges.live(i) && edge_resolvable(
                *old(s),
                old(s).edges.at(i),
            )) ==> s.edges@[i] == old(s).edges@[i]);
        assert(forall|n: int|
            0 <= n < old(s).nodes@.len() && !edge_delivery_target(*old(s), n) ==> s.nodes@[n]
                == old(s).nodes@[n]);
        lemma_propagate_rel_intro(*old(s), *s, dt_ms);
    }
}

/// What one gate phase does to the store: every live gate whose children
/// all resolve has its output overwritten with [`gate_out_value`] of the
/// phase's initial state — whatever the output held before — and nothing
/// but such outputs changes.
pub open spec fn gate_phase_rel(pre: GraphStore, post: GraphStore) -> bool {
    &&& post.edges == pre.edges
    &&& post.gates == pre.gates
    &&& post.nodes@.len() == pre.nodes@.len()
    &&& forall|i: int|
        pre.gates.live(i) && gate_resolvable(pre, #[trigger] pre.gates.at(i)) ==> ({
            let g = pre.gates.at(i);
            post.nodes@[g.output.id as int] == Some(
                Node {
                    value: gate_out_value(pre, g),
                    pos: pre.nodes.at(g.output.id as int).pos,
                },
            )
        })
    &&& forall|n: int|
        0 <= n < pre.nodes@.len() && !gate_write_target(pre, n) ==> post.nodes@[n]
            == pre.nodes@[n]
}

/// Propagation idempotence. Once an edge's source and destination agree
/// and its timer rests finished, an edge phase leaves the edge and its
/// destination exactly as they were; and whenever the source's value also
/// comes through the phase unchanged, every premise holds again of the
/// post state — so tick after tick, the destination and the timer stay put
/// until the source actually changes.
pub proof fn lemma_propagation_idempotent(pre: GraphStore, post: GraphStore, dt: u64, i: int)
    requires
        pre.wf(),
        propagate_rel(pre, post, dt),
        pre.edges.live(i),
        edge_resolvable(pre, pre.edges.at(i)),
        pre.nodes.at(pre.edges.at(i).from.id as int).value == pre.nodes.at(
            pre.edges.at(i).to.id as int,
        ).value,
        pre.edges.at(i).timer.elapsed == EDGE_DELAY_MS,
    ensures
        post.edges@[i] == pre.edges@[i],
        post.nodes@[pre.edges.at(i).to.id as int] == pre.nodes@[pre.edges.at(i).to.id as int],
        post.edges.live(i),
        edge_resolvable(post, post.edges.at(i)),
        post.edges.at(i) == pre.edges.at(i),
        post.nodes.at(post.edges.at(i).from.id as int).value == pre.nodes.at(
            pre.edges.at(i).from.id as int,
        ).value ==> (post.nodes.at(post.edges.at(i).from.id as int).value == post.nodes.at(
            post.edges.at(i).to.id as int,
        ).value && post.edges.at(i).timer.elapsed == EDGE_DELAY_MS),
{
    let e = pre.edges.at(i);
    let a = pre.nodes.at(e.from.id as int).value;
    let b = pre.nodes.at(e.to.id as int).value;
    assert(elapsed_after(a, b, e.timer.elapsed, dt) == EDGE_DELAY_MS);
    assert(value_after(a, b, e.timer.elapsed, dt) == b);
    assert(post.edges@[i] == Some(
        Edge { from: e.from, to: e.to, timer: EdgeTimer { elapsed: EDGE_DELAY_MS } },
    ));
    assert(post.nodes@[e.to.id as int] == Some(
        Node { value: b, pos: pre.nodes.at(e.to.id as int).pos },
    ));
    if edge_delivery_target(pre, e.from.id as int) {
        let j = choose|j: int|
            #![trigger pre.edges@[j]]
            pre.edges.live(j) && edge_resolvable(pre, pre.edges.at(j)) && pre.edges.at(j).to.id
                == e.from.id;
        assert(post.nodes@[e.from.id as int] is Some);
    } else {
        assert(post.nodes@[e.from.id as int] == pre.nodes@[e.from.id as int]);
    }
}

/// Ties a run of edge phases to the per-edge iteration [`edge_iter`]:
/// along a chain of well-formed states linked by [`propagate_rel`], as
/// long as the source node's value holds still at `a`, the timer and the
/// destination value of one edge walk exactly the iteration's path. With
/// [`crate::edge::lemma_delay_correctness`] this pins, at store level,
/// when a source change reaches the destination: exactly once, at the
/// first tick by which the accumulated time since the restart covers the
/// delay window.
pub proof fn lemma_edge_follows_iteration(chain: Seq<GraphStore>, dt: u64, i: int, a: bool)
    requires
        chain.len() >= 1,
        forall|k: int| 0 <= k < chain.len() ==> (#[trigger] chain[k]).wf(),
        forall|k: int| 0 <= k < chain.len() - 1 ==> propagate_rel(#[trigger] chain[k], chain[k + 1], dt),
        chain[0].edges.live(i),
        edge_resolvable(chain[0], chain[0].edges.at(i)),
        forall|k: int|
            0 <= k < chain.len() ==> (#[trigger] chain[k]).nodes.at(
                chain[0].edges.at(i).from.id as int,
            ).value == a,
    ensures
        forall|k: int|
            0 <= k < chain.len() ==> ({
                let e0 = chain[0].edges.at(i);
                let walked = crate::edge::edge_iter(
                    a,
                    chain[0].nodes.at(e0.to.id as int).value,
                    e0.timer.elapsed,
                    dt,
                    k as nat,
                );
                &&& (#[trigger] chain[k]).edges.live(i)
                &&& chain[k].edges.at(i).from == e0.from
                &&& chain[k].edges.at(i).to == e0.to
                &&& edge_resolvable(chain[k], chain[k].edges.at(i))
                &&& chain[k].edges.at(i).timer.elapsed == walked.0
                &&& chain[k].nodes.at(e0.to.id as int).value == walked.1
            }),
    decreases chain.len(),
{
    let e0 = chain[0].edges.at(i);
    let b0 = chain[0].nodes.at(e0.to.id as int).value;
    if chain.len() > 1 {
        let front = chain.drop_last();
        assert forall|k: int| 0 <= k < front.len() implies #[trigger] front[k] == chain[k] by {}
        assert(front[0] == chain[0]);
        lemma_edge_follows_iteration(front, dt, i, a);
        let m = chain.len() - 2;
        let pre = chain[m];
        let post = chain[m + 1];
        assert(front[m] == pre);
        assert(propagate_rel(pre, post, dt));
        let walked = crate::edge::edge_iter(a, b0, e0.timer.elapsed, dt, m as nat);
        assert(pre.edges.live(i) && pre.edges.at(i).from == e0.from && pre.edges.at(i).to
            == e0.to && edge_resolvable(pre, pre.edges.at(i)));
        assert(pre.edges.at(i).timer.elapsed == walked.0);
        assert(pre.nodes.at(e0.to.id as int).value == walked.1);
        assert(pre.nodes.at(e0.from.id as int).value == a);
        // one more application of the relation is one more iteration step
        assert(crate::edge::edge_iter(a, b0, e0.timer.elapsed, dt, (m + 1) as nat) == (
            elapsed_after(a, walked.1, walked.0, dt),
            value_after(a, walked.1, walked.0, dt),
        ));
        assert(post.edges@[i] == Some(
            Edge {
                from: e0.from,
                to: e0.to,
                timer: EdgeTimer { elapsed: elapsed_after(a, walked.1, walked.0, dt) },
            },
        ));
        assert(post.nodes@[e0.to.id as int] == Some(
            Node {
                value: value_after(a, walked.1, walked.0, dt),
                pos: pre.nodes.at(e0.to.id as int).pos,
            },
        ));
        // the source node survives the phase: either some edge delivered
        // into it, or it was not a delivery target and is untouched
        if edge_delivery_target(pre, e0.from.id as int) {
            let j = choose|j: int|
                #![trigger pre.edges@[j]]
                pre.edges.live(j) && edge_resolvable(pre, pre.edges.at(j)) && pre.edges.at(
                    j,
                ).to.id == e0.from.id;
            assert(post.nodes@[e0.from.id as int] is Some);
        } else {
            assert(post.nodes@[e0.from.id as int] == pre.nodes@[e0.from.id as int]);
        }
        assert(edge_resolvable(post, post.edges.at(i)));
        assert forall|k: int|
            0 <= k < chain.len() implies ({
            let walked2 = crate::edge::edge_iter(a, b0, e0.timer.elapsed, dt, k as nat);
            &&& (#[trigger] chain[k]).edges.live(i)
            &&& chain[k].edges.at(i).from == e0.from
            &&& chain[k].edges.at(i).to == e0.to
            &&& edge_resolvable(chain[k], chain[k].edges.at(i))
            &&& chain[k].edges.at(i).timer.elapsed == walked2.0
            &&& chain[k].nodes.at(e0.to.id as int).value == walked2.1
        }) by {
            if k < chain.len() - 1 {
                assert(front[k] == chain[k]);
            }
        }
    } else {
        assert(crate::edge::edge_iter(a, b0, e0.timer.elapsed, dt, 0) == (e0.timer.elapsed, b0));
    }
}

/// Delay correctness at store level. Take an edge at rest whose source
/// has just changed to `a` while the destination still reads `b`, and run
/// edge phases of tick size `dt` with the source holding still. The first
/// phase only restarts the timer; the destination then changes exactly
/// once, at the first phase by which the `(k - 1) * dt` accumulated since
/// the restart covers the delay window — never earlier, and never again.
pub proof fn lemma_store_delay(chain: Seq<GraphStore>, dt: u64, i: int, a: bool)
    requires
        chain.len() >= 1,
        1 <= dt,
        forall|k: int| 0 <= k < chain.len() ==> (#[trigger] chain[k]).wf(),
        forall|k: int|
            0 <= k < chain.len() - 1 ==> propagate_rel(#[trigger] chain[k], chain[k + 1], dt),
        chain[0].edges.live(i),
        edge_resolvable(chain[0], chain[0].edges.at(i)),
        forall|k: int|
            0 <= k < chain.len() ==> (#[trigger] chain[k]).nodes.at(
                chain[0].edges.at(i).from.id as int,
            ).value == a,
        chain[0].edges.at(i).timer.elapsed == EDGE_DELAY_MS,
        chain[0].nodes.at(chain[0].edges.at(i).to.id as int).value != a,
    ensures
        forall|k: int|
            1 <= k < chain.len() ==> ({
                let to = chain[0].edges.at(i).to.id as int;
                let b = chain[0].nodes.at(to).value;
                &&& (#[trigger] chain[k]).nodes.at(to).value == (if (k - 1) * dt
                    >= EDGE_DELAY_MS {
                    a
                } else {
                    b
                })
                &&& chain[k].edges.at(i).timer.elapsed == (if (k - 1) * dt >= EDGE_DELAY_MS {
                    EDGE_DELAY_MS as int
                } else {
                    (k - 1) * dt
                })
            }),
{
    lemma_edge_follows_iteration(chain, dt, i, a);
    let to = chain[0].edges.at(i).to.id as int;
    let b = chain[0].nodes.at(to).value;
    assert forall|k: int| 1 <= k < chain.len() implies ({
        &&& (#[trigger] chain[k]).nodes.at(to).value == (if (k - 1) * dt >= EDGE_DELAY_MS {
            a
        } else {
            b
        })
        &&& chain[k].edges.at(i).timer.elapsed == (if (k - 1) * dt >= EDGE_DELAY_MS {
            EDGE_DELAY_MS as int
        } else {
            (k - 1) * dt
        })
    }) by {
        crate::edge::lemma_delay_correctness(a, b, dt, k as nat);
    }
}

/// Gate purity. Whatever a gate's output node held before, a gate phase
/// leaves it holding exactly the truth table of its owner's kind over the
/// input values — for every kind and every input combination — and leaves
/// the input nodes themselves alone, since no gate's input is any gate's
/// output.
pub proof fn lemma_gate_purity(pre: GraphStore, post: GraphStore, i: int)
    requires
        pre.wf(),
        gate_phase_rel(pre, post),
        pre.gates.live(i),
        gate_resolvable(pre, pre.gates.at(i)),
    ensures
        ({
            let g = pre.gates.at(i);
            let a = pre.nodes.at(g.inputs[0].id as int).value;
            let b = if g.inputs.len() > 1 {
                pre.nodes.at(g.inputs[1].id as int).value
            } else {
                a
            };
            &&& post.nodes.at(g.output.id as int).value == eval_kind(g.kind, a, b)
            &&& forall|k: int|
                0 <= k < g.inputs.len() ==> post.nodes@[(#[trigger] g.inputs[k]).id as int]
                    == pre.nodes@[g.inputs[k].id as int]
        }),
{
    let g = pre.gates.at(i);
    assert(crate::graph::gate_form_wf(g, pre.nodes@.len() as int));
    assert forall|k: int|
        0 <= k < g.inputs.len() implies post.nodes@[(#[trigger] g.inputs[k]).id as int]
        == pre.nodes@[g.inputs[k].id as int] by {
        let c = g.inputs[k].id as int;
        assert(crate::graph::gate_owns(g, c));
        if gate_write_target(pre, c) {
            let m = choose|m: int|
                #![trigger pre.gates@[m]]
                pre.gates.live(m) && gate_resolvable(pre, pre.gates.at(m)) && pre.gates.at(
                    m,
                ).output.id == c;
            assert(crate::graph::gate_owns(pre.gates.at(m), c));
            if m != i {
                assert(crate::graph::gates_share_child(pre.gates.at(m), g));
            }
            assert(false);
        }
    }
}

/// One gate phase. Gates hold no state of their own: each output is a pure
/// function of its kind and current input values, recomputed every tick.
/// Gates own their children exclusively, so no gate's input is any gate's
/// output and the slot order of evaluation cannot matter;
/// [`gate_phase_rel`] states the full effect.
#[verifier::loop_isolation(false)]
pub fn process_gates(s: &mut GraphStore)
    requires
        old(s).wf(),
    ensures
        final(s).wf(),
        gate_phase_rel(*old(s), *final(s)),
{
    let n = s.gates.len();
    let mut i: usize = 0;
    while i < n
        invariant
            i <= n,
            s.wf(),
            s.gates == old(s).gates,
            s.edges == old(s).edges,
            s.nodes@.len() == old(s).nodes@.len(),
            n == s.gates@.len(),
            forall|m: int|
                0 <= m < s.nodes@.len() ==> (s.nodes.live(m) <==> old(s).nodes.live(m)),
            forall|j: int|
                0 <= j < i && old(s).gates.live(j) && gate_resolvable(
                    *old(s),
                    #[trigger] old(s).gates.at(j),
                ) ==> ({
                    let g = old(s).gates.at(j);
                    s.nodes@[g.output.id as int] == Some(
                        Node {
                            value: gate_out_value(*old(s), g),
                            pos: old(s).nodes.at(g.output.id as int).pos,
                        },
                    )
                }),
            forall|j: int|
                i <= j < n && old(s).gates.live(j) && gate_resolvable(
                    *old(s),
                    #[trigger] old(s).gates.at(j),
                ) ==> s.nodes@[old(s).gates.at(j).output.id as int] == old(s).nodes@[old(
                    s,
                ).gates.at(j).output.id as int],
            forall|nn: int|
                0 <= nn < old(s).nodes@.len() && !gate_write_target(*old(s), nn) ==> s.nodes@[nn]
                    == old(s).nodes@[nn],
        decreases n - i,
    {
        let picked: Option<(Id<Node>, Option<Id<Node>>, Id<Node>, GateType)> = match Id::at(
            i,
        ).get(&s.gates) {
            Some(g) => {
                proof {
                    assert(s.gates.live(i as int));
                    assert(crate::graph::gate_form_wf(
                        s.gates.at(i as int),
                        s.nodes@.len() as int,
                    ));
                }
                let i0 = g.inputs[0];
                let i1 = if g.inputs.len() > 1 {
                    Some(g.inputs[1])
                } else {
                    None
                };
                Some((i0, i1, g.output, g.kind))
            },
            None => None,
        };
        match picked {
            Some((in0, in1, out, kind)) => {
                let ghost g = old(s).gates.at(i as int);
                let a_read: Option<bool> = match in0.get(&s.nodes) {
                    Some(nd) => Some(nd.value),
                    None => None,
                };
                let b_read: Option<bool> = match in1 {
                    Some(i1) => match i1.get(&s.nodes) {
                        Some(nd) => Some(nd.value),
                        None => None,
                    },
                    None => a_read,
                };
                let out_live = out.get(&s.nodes).is_some();
                match (a_read, b_read) {
                    (Some(a), Some(b)) if out_live => {
                        proof {
                            assert(gate_resolvable(*old(s), g)) by {
                                assert forall|k: int| 0 <= k < g.inputs.len() implies old(
                                    s,
                                ).nodes.live((#[trigger] g.inputs[k]).id as int) by {
                                    if k == 0 {
                                        assert(g.inputs[0] == in0);
                                    } else {
                                        assert(g.inputs[1] == in1->Some_0);
                                    }
                                }
                            }
                            assert(!gate_write_target(*old(s), in0.id as int)) by {
                                if gate_write_target(*old(s), in0.id as int) {
                                    let m = choose|m: int|
                                        #![trigger old(s).gates@[m]]
                                        old(s).gates.live(m) && gate_resolvable(
                                            *old(s),
                                            old(s).gates.at(m),
                                        ) && old(s).gates.at(m).output.id == in0.id;
                                    assert(crate::graph::gate_owns(
                                        old(s).gates.at(m),
                                        in0.id as int,
                                    ));
                                    assert(crate::graph::gate_owns(g, in0.id as int));
                                    if m != i {
                                        assert(crate::graph::gates_share_child(
                                            old(s).gates.at(m),
                                            g,
                                        ));
                                    }
                                }
                            }
                            if in1 is Some {
                                let c1 = in1->Some_0;
                                assert(!gate_write_target(*old(s), c1.id as int)) by {
                                    if gate_write_target(*old(s), c1.id as int) {
                                        let m = choose|m: int|
                                            #![trigger old(s).gates@[m]]
                                            old(s).gates.live(m) && gate_resolvable(
                                                *old(s),
                                                old(s).gates.at(m),
                                            ) && old(s).gates.at(m).output.id == c1.id;
                                        assert(crate::graph::gate_owns(
                                            old(s).gates.at(m),
                                            c1.id as int,
                                        ));
                                        assert(g.inputs[1] == c1);
                                        assert(crate::graph::gate_owns(g, c1.id as int));
                                        if m != i {
                                            assert(crate::graph::gates_share_child(
                                                old(s).gates.at(m),
                                                g,
                                            ));
                                        }
                                    }
                                }
                            }
                            assert(gate_write_target(*old(s), out.id as int));
                        }
                        let v = kind.eval(a, b);
                        proof {
                            assert(v == gate_out_value(*old(s), g));
                            assert forall|j: int|
                                0 <= j < n && j != i && old(s).gates.live(j) && gate_resolvable(
                                    *old(s),
                                    #[trigger] old(s).gates.at(j),
                                ) implies old(s).gates.at(j).output.id != out.id by {
                                assert(crate::graph::gate_owns(
                                    old(s).gates.at(j),
                                    old(s).gates.at(j).output.id as int,
                                ));
                                if old(s).gates.at(j).output.id == out.id {
                                    assert(crate::graph::gate_owns(g, out.id as int));
                                    assert(crate::graph::gates_share_child(
                                        old(s).gates.at(j),
                                        g,
                                    ));
                                }
                            }
                        }
                        s.set_node_value(out, v);
                    },
                    _ => {
                        proof {
                            if old(s).gates.live(i as int) && gate_resolvable(*old(s), g) {
                                assert(old(s).nodes.live(g.inputs[0].id as int));
                                if g.inputs.len() > 1 {
                                    assert(old(s).nodes.live(g.inputs[1].id as int));
                                }
                                assert(false);
                            }
                        }
                    },
                }
            },
            None => {},
        }
        i += 1;
    }
}

} // verus!
