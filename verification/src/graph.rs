//! The graph store: typed arenas of nodes, edges and gates, with the
//! create/delete operations, cascading deletion and the consistency sweep.
//!
//! Every operation keeps the store well-formed ([`GraphStore::wf`]): gate
//! arities match their kind, gates own their child nodes exclusively, stored
//! positions stay inside the canvas, no node has two incoming edges, and no
//! timer has run past its delay window.

use vstd::prelude::*;

use crate::edge::{Edge, EdgeTimer, EDGE_DELAY_MS};
use crate::gate::{gate_input_pos, gate_output_pos, input_pos_exec, output_pos_exec, Gate, GateType};
use crate::geometry::{gate_size_ok, in_gate_world, in_world, Vec2i};
use crate::id::{Arena, Id};
use crate::node::Node;

verus! {

/// Whether node slot `n` is one of gate `g`'s owned children (an input or
/// the output).
pub open spec fn gate_owns(g: Gate, n: int) -> bool {
    g.output.id == n || exists|k: int| 0 <= k < g.inputs.len() && g.inputs[k].id == n
}

/// Whether two gates own a common child node.
pub open spec fn gates_share_child(g1: Gate, g2: Gate) -> bool {
    exists|n: int| #[trigger] gate_owns(g1, n) && #[trigger] gate_owns(g2, n)
}

/// Whether both endpoints of an edge still resolve to live nodes.
pub open spec fn edge_resolvable(s: GraphStore, e: Edge) -> bool {
    s.nodes.live(e.from.id as int) && s.nodes.live(e.to.id as int)
}

/// The shape of a gate freshly created over a node arena that held `base`
/// slots: inputs occupy slots `base .. base + arity`, in order, and the
/// output the slot after them.
pub open spec fn gate_created(base: int, kind: GateType, pos: Vec2i, size: Vec2i, g: Gate) -> bool {
    &&& g.kind == kind
    &&& g.pos == pos
    &&& g.size == size
    &&& g.inputs.len() == kind.arity()
    &&& forall|k: int| 0 <= k < g.inputs.len() ==> (#[trigger] g.inputs[k]).id == base + k
    &&& g.output.id == base + kind.arity()
}

/// Shape of a single gate against an arena of `nodes_len` node slots: the
/// arity matches the kind, the box is inside the canvas, and the child
/// handles are in range and pairwise distinct.
pub open spec fn gate_form_wf(g: Gate, nodes_len: int) -> bool {
    &&& g.inputs.len() == g.kind.arity()
    &&& in_gate_world(g.pos)
    &&& gate_size_ok(g.size)
    &&& g.output.id < nodes_len
    &&& forall|k: int| 0 <= k < g.inputs.len() ==> (#[trigger] g.inputs[k]).id < nodes_len
    &&& forall|k: int| 0 <= k < g.inputs.len() ==> (#[trigger] g.inputs[k]).id != g.output.id
    &&& forall|k1: int, k2: int|
        0 <= k1 < k2 < g.inputs.len() ==> g.inputs[k1].id != g.inputs[k2].id
}

/// All nodes, edges and gates of one circuit.
pub struct GraphStore {
    pub nodes: Arena<Node>,
    pub edges: Arena<Edge>,
    pub gates: Arena<Gate>,
}

impl GraphStore {
    /// Whether some live edge already ends at node slot `n`.
    pub open spec fn has_incoming(self, n: int) -> bool {
        exists|i: int| #![trigger self.edges@[i]] self.edges.live(i) && self.edges.at(i).to.id == n
    }

    /// Whether node slot `n` is the output of some live gate.
    pub open spec fn is_gate_output(self, n: int) -> bool {
        exists|i: int|
            #![trigger self.gates@[i]]
            self.gates.live(i) && self.gates.at(i).output.id == n
    }

    /// Distinct live gates own disjoint sets of child nodes.
    pub open spec fn gates_disjoint(self) -> bool {
        forall|i: int, j: int|
            #![trigger self.gates@[i], self.gates@[j]]
            self.gates.live(i) && self.gates.live(j) && i != j ==> !gates_share_child(
                self.gates.at(i),
                self.gates.at(j),
            )
    }

    /// No two live edges end at the same node, so delayed deliveries never
    /// race for one destination.
    pub open spec fn edges_unique_to(self) -> bool {
        forall|i: int, j: int|
            #![trigger self.edges@[i], self.edges@[j]]
            self.edges.live(i) && self.edges.live(j) && i != j ==> self.edges.at(i).to.id
                != self.edges.at(j).to.id
    }

    /// The store's well-formedness invariant; every operation requires and
    /// preserves it.
    pub open spec fn wf(self) -> bool {
        &&& forall|i: int|
            #![trigger self.nodes@[i]]
            self.nodes.live(i) ==> in_world(self.nodes.at(i).pos)
        &&& forall|i: int|
            #![trigger self.edges@[i]]
            self.edges.live(i) ==> self.edges.at(i).timer.elapsed <= EDGE_DELAY_MS
        &&& forall|i: int|
            #![trigger self.gates@[i]]
            self.gates.live(i) ==> gate_form_wf(self.gates.at(i), self.nodes@.len() as int)
        &&& self.gates_disjoint()
        &&& self.edges_unique_to()
    }

    /// An empty circuit.
    pub fn new() -> (s: GraphStore)
        ensures
            s.wf(),
            s.nodes@.len() == 0,
            s.edges@.len() == 0,
            s.gates@.len() == 0,
    {
        GraphStore { nodes: Arena::new(), edges: Arena::new(), gates: Arena::new() }
    }

    /// Creates a free node: off, at `pos`.
    pub fn create_node(&mut self, pos: Vec2i) -> (h: Id<Node>)
        requires
            old(self).wf(),
            in_world(pos),
        ensures
            final(self).wf(),
            final(self).nodes@ =~= old(self).nodes@.push(Some(Node { value: false, pos })),
            final(self).edges == old(self).edges,
            final(self).gates == old(self).gates,
            h.id == old(self).nodes@.len(),
    {
        Id::create(&mut self.nodes, Node::new(pos))
    }

    /// Deletes an edge; a stale handle is ignored.
    pub fn delete_edge(&mut self, h: Id<Edge>)
        requires
            old(self).wf(),
        ensures
            final(self).wf(),
            final(self).nodes == old(self).nodes,
            final(self).gates == old(self).gates,
            final(self).edges@.len() == old(self).edges@.len(),
            old(self).edges.live(h.id as int) ==> final(self).edges@ =~= old(self).edges@.update(
                h.id as int,
                None,
            ),
            !old(self).edges.live(h.id as int) ==> final(self).edges@ =~= old(self).edges@,
    {
        self.edges.remove(h);
    }

    /// Creates an edge `from -> to` with its timer born finished.
    ///
    /// Returns `None` — and leaves the store untouched — when either
    /// endpoint no longer resolves, or when `to` already has an incoming
    /// edge: a second writer for one node would make delivery order
    /// ambiguous, so it is rejected here at the boundary.
    #[verifier::loop_isolation(false)]
    pub fn create_edge(&mut self, from: Id<Node>, to: Id<Node>) -> (r: Option<Id<Edge>>)
        requires
            old(self).wf(),
        ensures
            final(self).wf(),
            final(self).nodes == old(self).nodes,
            final(self).gates == old(self).gates,
            ({
                let ok = old(self).nodes.live(from.id as int) && old(self).nodes.live(to.id as int)
                    && !old(self).has_incoming(to.id as int);
                &&& ok ==> (r matches Some(h) && h.id == old(self).edges@.len()
                    && final(self).edges@ =~= old(self).edges@.push(
                    Some(Edge { from, to, timer: EdgeTimer { elapsed: EDGE_DELAY_MS } }),
                ))
                &&& !ok ==> (r is None && final(self).edges@ =~= old(self).edges@)
            }),
    {
        if from.get(&self.nodes).is_none() || to.get(&self.nodes).is_none() {
            return None;
        }
        let n = self.edges.len();
        let mut i: usize = 0;
        while i < n
            invariant
                self == old(self),
                n == self.edges@.len(),
                forall|j: int|
                    0 <= j < i ==> !(self.edges.live(j) && (#[trigger] self.edges.at(j)).to.id
                        == to.id),
            decreases n - i,
        {
            match Id::at(i).get(&self.edges) {
                Some(e) => {
                    if e.to.id == to.id {
                        proof {
                            assert(self.edges.live(i as int));
                            assert(self.edges.at(i as int).to.id == to.id);
                            assert(self.has_incoming(to.id as int));
                        }
                        return None;
                    }
                },
                None => {},
            }
            i += 1;
        }
        proof {
            assert(!self.has_incoming(to.id as int));
        }
        let h = Id::create(&mut self.edges, Edge { from, to, timer: EdgeTimer::new_finished() });
        Some(h)
    }

    /// Creates a gate of `kind` centered at `pos` with extents `size`,
    /// together with its owned input and output nodes: fresh, off, and laid
    /// out against its box.
    #[verifier::loop_isolation(false)]
    pub fn create_gate(&mut self, kind: GateType, pos: Vec2i, size: Vec2i) -> (h: Id<Gate>)
        requires
            old(self).wf(),
            in_gate_world(pos),
            gate_size_ok(size),
        ensures
            final(self).wf(),
            final(self).edges == old(self).edges,
            h.id == old(self).gates@.len(),
            final(self).gates@.len() == old(self).gates@.len() + 1,
            forall|i: int|
                0 <= i < old(self).gates@.len() ==> final(self).gates@[i] == old(self).gates@[i],
            final(self).gates.live(h.id as int),
            gate_created(
                old(self).nodes@.len() as int,
                kind,
                pos,
                size,
                final(self).gates.at(h.id as int),
            ),
            final(self).nodes@.len() == old(self).nodes@.len() + kind.arity() + 1,
            forall|i: int|
                0 <= i < old(self).nodes@.len() ==> final(self).nodes@[i] == old(self).nodes@[i],
            forall|k: int|
                0 <= k < kind.arity() ==> final(self).nodes@[old(self).nodes@.len() + k] == Some(
                    Node { value: false, pos: gate_input_pos(kind, pos, size, k) },
                ),
            final(self).nodes@[old(self).nodes@.len() + kind.arity() as int] == Some(
                Node { value: false, pos: gate_output_pos(pos, size) },
            ),
    {
        let base = self.nodes.len();
        let narity = kind.num_inputs();
        let mut inputs: Vec<Id<Node>> = Vec::new();
        let mut k: usize = 0;
        while k < narity
            invariant
                self.wf(),
                k <= narity,
                inputs@.len() == k,
                self.gates == old(self).gates,
                self.edges == old(self).edges,
                self.nodes@.len() == base + k,
                forall|i: int| 0 <= i < base ==> self.nodes@[i] == old(self).nodes@[i],
                forall|j: int| 0 <= j < k ==> (#[trigger] inputs@[j]).id == base + j,
                forall|j: int|
                    0 <= j < k ==> self.nodes@[base + j] == Some(
                        Node { value: false, pos: gate_input_pos(kind, pos, size, j) },
                    ),
            decreases narity - k,
        {
            let p = input_pos_exec(kind, pos, size, k);
            let nh = self.create_node(p);
            inputs.push(nh);
            k += 1;
        }
        let op = output_pos_exec(pos, size);
        let onh = self.create_node(op);
        let g = Gate { kind, inputs, output: onh, pos, size };
        let h = Id::create(&mut self.gates, g);
        proof {
            let newi = old(self).gates@.len() as int;
            let nlen = self.nodes@.len() as int;
            assert forall|i: int| self.gates.live(i) implies gate_form_wf(
                self.gates.at(i),
                nlen,
            ) by {
                if i < newi {
                    assert(self.gates@[i] == old(self).gates@[i]);
                    assert(gate_form_wf(old(self).gates.at(i), old(self).nodes@.len() as int));
                }
            }
            assert forall|i: int, j: int|
                self.gates.live(i) && self.gates.live(j) && i != j implies !gates_share_child(
                self.gates.at(i),
                self.gates.at(j),
            ) by {
                if gates_share_child(self.gates.at(i), self.gates.at(j)) {
                    let n = choose|n: int|
                        #[trigger] gate_owns(self.gates.at(i), n) && #[trigger] gate_owns(
                            self.gates.at(j),
                            n,
                        );
                    if i < newi && j < newi {
                        assert(self.gates@[i] == old(self).gates@[i]);
                        assert(self.gates@[j] == old(self).gates@[j]);
                        assert(gates_share_child(old(self).gates.at(i), old(self).gates.at(j)));
                    } else {
                        // one of the two is the fresh gate: its children sit at
                        // `base` and above, while older gates' children lie
                        // below `base`.
                        let oi = if i < newi {
                            i
                        } else {
                            j
                        };
                        assert(self.gates@[oi] == old(self).gates@[oi]);
                        assert(gate_form_wf(old(self).gates.at(oi), base as int));
                        assert(gate_owns(self.gates.at(oi), n) && gate_owns(g, n));
                        if g.output.id != n {
                            let kk = choose|kk: int|
                                0 <= kk < g.inputs.len() && g.inputs[kk].id == n;
                            assert(g.inputs[kk].id == base + kk);
                        }
                        assert(n >= base);
                        let go = old(self).gates.at(oi);
                        if go.output.id != n {
                            let kk = choose|kk: int|
                                0 <= kk < go.inputs.len() && go.inputs[kk].id == n;
                            assert(go.inputs[kk].id < base);
                        }
                        assert(n < base);
                    }
                }
            }
        }
        h
    }

    /// Deletes a node and cascades: every edge whose `from` or `to` is this
    /// handle goes with it. A stale handle still sweeps such edges.
    #[verifier::loop_isolation(false)]
    pub fn delete_node(&mut self, h: Id<Node>)
        requires
            old(self).wf(),
        ensures
            final(self).wf(),
            final(self).gates == old(self).gates,
            final(self).nodes@.len() == old(self).nodes@.len(),
            final(self).edges@.len() == old(self).edges@.len(),
            old(self).nodes.live(h.id as int) ==> final(self).nodes@ =~= old(self).nodes@.update(
                h.id as int,
                None,
            ),
            !old(self).nodes.live(h.id as int) ==> final(self).nodes@ =~= old(self).nodes@,
            forall|i: int|
                final(self).edges.live(i) <==> (old(self).edges.live(i) && (#[trigger] old(
                    self,
                ).edges.at(i)).from.id != h.id && old(self).edges.at(i).to.id != h.id),
            forall|i: int|
                final(self).edges.live(i) ==> #[trigger] final(self).edges.at(i) == old(
                    self,
                ).edges.at(i),
    {
        self.nodes.remove(h);
        let n = self.edges.len();
        let mut i: usize = 0;
        while i < n
            invariant
                self.wf(),
                n == self.edges@.len(),
                self.gates == old(self).gates,
                self.nodes@.len() == old(self).nodes@.len(),
                old(self).nodes.live(h.id as int) ==> self.nodes@ =~= old(self).nodes@.update(
                    h.id as int,
                    None,
                ),
                !old(self).nodes.live(h.id as int) ==> self.nodes@ =~= old(self).nodes@,
                forall|j: int| i <= j < n ==> self.edges@[j] == old(self).edges@[j],
                forall|j: int|
                    0 <= j < i ==> (self.edges.live(j) <==> (old(self).edges.live(j) && (
                    #[trigger] old(self).edges.at(j)).from.id != h.id && old(self).edges.at(
                        j,
                    ).to.id != h.id)),
                forall|j: int|
                    0 <= j < i && self.edges.live(j) ==> #[trigger] self.edges.at(j) == old(
                        self,
                    ).edges.at(j),
            decreases n - i,
        {
            let eh: Id<Edge> = Id::at(i);
            let touches: bool = match eh.get(&self.edges) {
                Some(e) => e.from.id == h.id || e.to.id == h.id,
                None => false,
            };
            if touches {
                self.edges.remove(eh);
            }
            i += 1;
        }
    }

    /// Deletes a gate and cascades: its owned input and output nodes go with
    /// it, and through their deletion every edge touching them. A stale
    /// handle is ignored.
    pub fn delete_gate(&mut self, h: Id<Gate>)
        requires
            old(self).wf(),
        ensures
            final(self).wf(),
            !old(self).gates.live(h.id as int) ==> *final(self) == *old(self),
            old(self).gates.live(h.id as int) ==> ({
                let g = old(self).gates.at(h.id as int);
                &&& final(self).gates@ =~= old(self).gates@.update(h.id as int, None)
                &&& final(self).nodes@.len() == old(self).nodes@.len()
                &&& final(self).edges@.len() == old(self).edges@.len()
                &&& forall|n: int| gate_owns(g, n) ==> !final(self).nodes.live(n)
                &&& forall|n: int|
                    0 <= n < old(self).nodes@.len() && !gate_owns(g, n) ==> final(self).nodes@[n]
                        == old(self).nodes@[n]
                &&& forall|i: int|
                    final(self).edges.live(i) <==> (old(self).edges.live(i) && !gate_owns(
                        g,
                        (#[trigger] old(self).edges.at(i)).from.id as int,
                    ) && !gate_owns(g, old(self).edges.at(i).to.id as int))
                &&& forall|i: int|
                    final(self).edges.live(i) ==> #[trigger] final(self).edges.at(i) == old(
                        self,
                    ).edges.at(i)
            }),
    {
        let picked: Option<(Id<Node>, Option<Id<Node>>, Id<Node>)> = match h.get(&self.gates) {
            Some(g) => {
                proof {
                    assert(self.gates.live(h.id as int));
                    assert(gate_form_wf(self.gates.at(h.id as int), self.nodes@.len() as int));
                }
                let i0 = g.inputs[0];
                let i1 = if g.inputs.len() > 1 {
                    Some(g.inputs[1])
                } else {
                    None
                };
                Some((i0, i1, g.output))
            },
            None => None,
        };
        let (in0, in1, out) = match picked {
            Some(t) => t,
            None => {
                return ;
            },
        };
        let ghost g = old(self).gates.at(h.id as int);
        proof {
            assert forall|n: int| gate_owns(g, n) implies (n == in0.id || (in1 matches Some(x)
                && n == x.id) || n == out.id) by {
                if n != g.output.id {
                    let kk = choose|kk: int| 0 <= kk < g.inputs.len() && g.inputs[kk].id == n;
                }
            }
            assert(gate_owns(g, in0.id as int));
            if in1 is Some {
                assert(g.inputs[1].id == in1->Some_0.id);
                assert(gate_owns(g, in1->Some_0.id as int));
            }
            assert(gate_owns(g, out.id as int));
        }
        let ghost s0 = *self;
        self.delete_node(in0);
        let ghost s1 = *self;
        match in1 {
            Some(i1) => self.delete_node(i1),
            None => (),
        }
        let ghost s2 = *self;
        self.delete_node(out);
        let ghost s3 = *self;
        self.gates.remove(h);
        proof {
            assert forall|i: int|
                self.edges.live(i) <==> (s0.edges.live(i) && !gate_owns(
                    g,
                    s0.edges.at(i).from.id as int,
                ) && !gate_owns(g, s0.edges.at(i).to.id as int)) by {
                if s1.edges.live(i) {
                    assert(s1.edges.at(i) == s0.edges.at(i));
                }
                if s2.edges.live(i) {
                    assert(s2.edges.at(i) == s1.edges.at(i));
                }
                if s3.edges.live(i) {
                    assert(s3.edges.at(i) == s2.edges.at(i));
                }
            }
            assert forall|i: int| self.edges.live(i) implies self.edges.at(i) == s0.edges.at(
                i,
            ) by {
                assert(s1.edges.live(i) && s2.edges.live(i) && s3.edges.live(i));
            }
            assert forall|n: int| gate_owns(g, n) implies !self.nodes.live(n) by {
                assert(n == in0.id || (in1 matches Some(x) && n == x.id) || n == out.id);
            }
        }
    }

    /// Whether `h` is the output node of some live gate: such a node is
    /// rewritten by every gate phase, so a user toggle on it is refused.
    #[verifier::loop_isolation(false)]
    pub fn is_output_node(&self, h: Id<Node>) -> (r: bool)
        ensures
            r == self.is_gate_output(h.id as int),
    {
        let n = self.gates.len();
        let mut i: usize = 0;
        while i < n
            invariant
                forall|j: int|
                    0 <= j < i ==> !(self.gates.live(j) && (#[trigger] self.gates@[j])->Some_0.output.id
                        == h.id),
            decreases n - i,
        {
            match Id::at(i).get(&self.gates) {
                Some(g) => {
                    if g.output.id == h.id {
                        proof {
                            assert(self.gates.live(i as int) && self.gates.at(i as int).output.id
                                == h.id);
                        }
                        return true;
                    }
                },
                None => {},
            }
            i += 1;
        }
        false
    }

    /// Overwrites a node's value, keeping its position; a stale handle is
    /// ignored.
    pub fn set_node_value(&mut self, h: Id<Node>, value: bool)
        requires
            old(self).wf(),
        ensures
            final(self).wf(),
            final(self).edges == old(self).edges,
            final(self).gates == old(self).gates,
            final(self).nodes@.len() == old(self).nodes@.len(),
            old(self).nodes.live(h.id as int) ==> final(self).nodes@ =~= old(self).nodes@.update(
                h.id as int,
                Some(Node { value, pos: old(self).nodes.at(h.id as int).pos }),
            ),
            !old(self).nodes.live(h.id as int) ==> final(self).nodes@ =~= old(self).nodes@,
    {
        match h.get_mut(&mut self.nodes) {
            Some(n) => {
                n.value = value;
            },
            None => {},
        }
    }

    /// Repositions a node, keeping its value; a stale handle is ignored.
    fn set_node_pos(&mut self, h: Id<Node>, pos: Vec2i)
        requires
            old(self).wf(),
            in_world(pos),
        ensures
            final(self).wf(),
            final(self).edges == old(self).edges,
            final(self).gates == old(self).gates,
            final(self).nodes@.len() == old(self).nodes@.len(),
            old(self).nodes.live(h.id as int) ==> final(self).nodes@ =~= old(self).nodes@.update(
                h.id as int,
                Some(Node { value: old(self).nodes.at(h.id as int).value, pos }),
            ),
            !old(self).nodes.live(h.id as int) ==> final(self).nodes@ =~= old(self).nodes@,
    {
        match h.get_mut(&mut self.nodes) {
            Some(n) => {
                n.pos = pos;
            },
            None => {},
        }
    }

    /// Moves a gate to `pos` and lays its children out against the new box:
    /// inputs down the left edge, output at the middle of the right edge,
    /// every value untouched. This is the one way a gate's transform
    /// changes, so the re-layout runs whether the move comes from a drag or
    /// from a programmatic caller. A stale handle is ignored; a dead child
    /// slot stays dead.
    pub fn move_gate_to(&mut self, h: Id<Gate>, pos: Vec2i)
        requires
            old(self).wf(),
            in_gate_world(pos),
        ensures
            final(self).wf(),
            final(self).edges == old(self).edges,
            final(self).nodes@.len() == old(self).nodes@.len(),
            final(self).gates@.len() == old(self).gates@.len(),
            !old(self).gates.live(h.id as int) ==> *final(self) == *old(self),
            old(self).gates.live(h.id as int) ==> ({
                let g = old(self).gates.at(h.id as int);
                &&& final(self).gates@ =~= old(self).gates@.update(
                    h.id as int,
                    Some(Gate { pos, ..g }),
                )
                &&& forall|n: int|
                    0 <= n < old(self).nodes@.len() && !gate_owns(g, n) ==> final(self).nodes@[n]
                        == old(self).nodes@[n]
                &&& forall|k: int|
                    0 <= k < g.inputs.len() ==> ({
                        let c = (#[trigger] g.inputs[k]).id as int;
                        &&& old(self).nodes.live(c) ==> final(self).nodes@[c] == Some(
                            Node {
                                value: old(self).nodes.at(c).value,
                                pos: gate_input_pos(g.kind, pos, g.size, k),
                            },
                        )
                        &&& !old(self).nodes.live(c) ==> final(self).nodes@[c] == old(
                            self,
                        ).nodes@[c]
                    })
                &&& ({
                    let c = g.output.id as int;
                    &&& old(self).nodes.live(c) ==> final(self).nodes@[c] == Some(
                        Node {
                            value: old(self).nodes.at(c).value,
                            pos: gate_output_pos(pos, g.size),
                        },
                    )
                    &&& !old(self).nodes.live(c) ==> final(self).nodes@[c] == old(self).nodes@[c]
                })
            }),
    {
        let picked: Option<(Id<Node>, Option<Id<Node>>, Id<Node>, GateType, Vec2i)> = match h.get(
            &self.gates,
        ) {
            Some(g) => {
                proof {
                    assert(self.gates.live(h.id as int));
                    assert(gate_form_wf(self.gates.at(h.id as int), self.nodes@.len() as int));
                }
                let i0 = g.inputs[0];
                let i1 = if g.inputs.len() > 1 {
                    Some(g.inputs[1])
                } else {
                    None
                };
                Some((i0, i1, g.output, g.kind, g.size))
            },
            None => None,
        };
        let (in0, in1, out, kind, size) = match picked {
            Some(t) => t,
            None => {
                return ;
            },
        };
        let ghost g0 = old(self).gates.at(h.id as int);
        match h.get_mut(&mut self.gates) {
            Some(gm) => {
                gm.pos = pos;
            },
            None => {},
        }
        let ghost g1 = self.gates.at(h.id as int);
        proof {
            assert(g1 == Gate { pos, ..g0 });
            assert forall|n: int| gate_owns(g1, n) <==> gate_owns(g0, n) by {
                if gate_owns(g1, n) && g1.output.id != n {
                    let kk = choose|kk: int| 0 <= kk < g1.inputs.len() && g1.inputs[kk].id == n;
                    assert(g0.inputs[kk].id == n);
                }
                if gate_owns(g0, n) && g0.output.id != n {
                    let kk = choose|kk: int| 0 <= kk < g0.inputs.len() && g0.inputs[kk].id == n;
                    assert(g1.inputs[kk].id == n);
                }
            }
            assert forall|i: int, j: int|
                self.gates.live(i) && self.gates.live(j) && i != j implies !gates_share_child(
                self.gates.at(i),
                self.gates.at(j),
            ) by {
                if gates_share_child(self.gates.at(i), self.gates.at(j)) {
                    let n = choose|n: int|
                        #[trigger] gate_owns(self.gates.at(i), n) && #[trigger] gate_owns(
                            self.gates.at(j),
                            n,
                        );
                    if i != h.id as int {
                        assert(self.gates@[i] == old(self).gates@[i]);
                    }
                    if j != h.id as int {
                        assert(self.gates@[j] == old(self).gates@[j]);
                    }
                    assert(gate_owns(old(self).gates.at(i), n));
                    assert(gate_owns(old(self).gates.at(j), n));
                    assert(gates_share_child(old(self).gates.at(i), old(self).gates.at(j)));
                }
            }
            assert(self.wf());
        }
        let ghost s1 = *self;
        let p0 = input_pos_exec(kind, pos, size, 0);
        self.set_node_pos(in0, p0);
        let ghost s2 = *self;
        match in1 {
            Some(i1) => {
                let p1 = input_pos_exec(kind, pos, size, 1);
                self.set_node_pos(i1, p1);
            },
            None => (),
        }
        let ghost s3 = *self;
        let po = output_pos_exec(pos, size);
        self.set_node_pos(out, po);
        proof {
            assert(in0.id != out.id && (in1 matches Some(x) ==> x.id != out.id && x.id != in0.id));
            assert forall|n: int|
                0 <= n < old(self).nodes@.len() && !gate_owns(g0, n) implies self.nodes@[n] == old(
                self,
            ).nodes@[n] by {
                assert(n != in0.id && n != out.id && (in1 matches Some(x) ==> n != x.id));
            }
        }
    }

    /// What the consistency sweep does to the store: exactly the live
    /// edges whose endpoints both resolve survive, untouched; nodes and
    /// gates are not the sweep's business.
    pub open spec fn sweep_rel(pre: GraphStore, post: GraphStore) -> bool {
        &&& post.nodes == pre.nodes
        &&& post.gates == pre.gates
        &&& post.edges@.len() == pre.edges@.len()
        &&& forall|i: int|
            post.edges.live(i) <==> (pre.edges.live(i) && pre.nodes.live(
                (#[trigger] pre.edges.at(i)).from.id as int,
            ) && pre.nodes.live(pre.edges.at(i).to.id as int))
        &&& forall|i: int|
            post.edges.live(i) ==> #[trigger] post.edges.at(i) == pre.edges.at(i)
    }

    /// The consistency sweep: removes every edge with an endpoint that no
    /// longer resolves, making dangling references self-healing.
    /// [`GraphStore::sweep_rel`] states the full effect.
    #[verifier::loop_isolation(false)]
    pub fn sweep(&mut self)
        requires
            old(self).wf(),
        ensures
            final(self).wf(),
            GraphStore::sweep_rel(*old(self), *final(self)),
    {
        let n = self.edges.len();
        let mut i: usize = 0;
        while i < n
            invariant
                self.wf(),
                n == self.edges@.len(),
                self.nodes == old(self).nodes,
                self.gates == old(self).gates,
                forall|j: int| i <= j < n ==> self.edges@[j] == old(self).edges@[j],
                forall|j: int|
                    0 <= j < i ==> (self.edges.live(j) <==> (old(self).edges.live(j) && old(
                        self,
                    ).nodes.live((#[trigger] old(self).edges.at(j)).from.id as int) && old(
                        self,
                    ).nodes.live(old(self).edges.at(j).to.id as int))),
                forall|j: int|
                    0 <= j < i && self.edges.live(j) ==> #[trigger] self.edges.at(j) == old(
                        self,
                    ).edges.at(j),
            decreases n - i,
        {
            let h: Id<Edge> = Id::at(i);
            let dangling: bool = match h.get(&self.edges) {
                Some(e) => {
                    e.from.get(&self.nodes).is_none() || e.to.get(&self.nodes).is_none()
                },
                None => false,
            };
            if dangling {
                self.edges.remove(h);
            }
            i += 1;
        }
    }
}

} // verus!
