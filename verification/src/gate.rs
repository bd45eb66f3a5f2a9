//! Gates: pure combinational boolean functions over one or two input nodes,
//! writing one output node every tick.
//!
//! A gate exclusively owns its input and output nodes; they are created with
//! their gate, repositioned against its box whenever it moves, and destroyed
//! with it.

use vstd::prelude::*;

use crate::geometry::Vec2i;
use crate::id::Id;
use crate::node::Node;

verus! {

/// The closed set of gate kinds.
#[derive(Clone, Copy, Debug, PartialEq, Eq, Structural)]
pub enum GateType {
    And,
    Or,
    Xor,
    Not,
}

/// The truth table of a kind, as a pure function of the input values.
/// A `Not` gate reads only `a`.
pub open spec fn eval_kind(kind: GateType, a: bool, b: bool) -> bool {
    match kind {
        GateType::And => a && b,
        GateType::Or => a || b,
        GateType::Xor => a != b,
        GateType::Not => !a,
    }
}

impl GateType {
    /// How many input nodes a gate of this kind owns.
    pub open spec fn arity(self) -> nat {
        match self {
            GateType::Not => 1,
            _ => 2,
        }
    }

    /// Display label of the kind.
    pub fn as_str(&self) -> (r: &'static str)
        ensures
            *self == GateType::And ==> r@ == "And"@,
            *self == GateType::Or ==> r@ == "Or"@,
            *self == GateType::Xor ==> r@ == "Xor"@,
            *self == GateType::Not ==> r@ == "Not"@,
    {
        match self {
            GateType::And => "And",
            GateType::Or => "Or",
            GateType::Xor => "Xor",
            GateType::Not => "Not",
        }
    }

    /// Runtime arity, matching [`GateType::arity`].
    pub fn num_inputs(&self) -> (r: usize)
        ensures
            r == self.arity(),
    {
        match self {
            GateType::And | GateType::Or | GateType::Xor => 2,
            GateType::Not => 1,
        }
    }

    /// Runtime truth table, matching [`eval_kind`].
    pub fn eval(&self, a: bool, b: bool) -> (r: bool)
        ensures
            r == eval_kind(*self, a, b),
    {
        match self {
            GateType::And => a && b,
            GateType::Or => a || b,
            GateType::Xor => a != b,
            GateType::Not => !a,
        }
    }
}

/// A combinational gate and the handles of the nodes it owns.
pub struct Gate {
    pub kind: GateType,
    pub inputs: Vec<Id<Node>>,
    pub output: Id<Node>,
    pub pos: Vec2i,
    pub size: Vec2i,
}

/// Where input `k` of a gate sits: on its owner's left edge, at vertical
/// fraction `(i + 1) / (n + 1)` of its height, where `i` counts from the
/// bottom and `inputs[k]` is the `k`-th from the top (`i == n - 1 - k`).
pub open spec fn gate_input_pos(kind: GateType, pos: Vec2i, size: Vec2i, k: int) -> Vec2i {
    Vec2i {
        x: (pos.x - size.x as int / 2) as i64,
        y: (pos.y + ((kind.arity() as int - k) * size.y) / (kind.arity() as int + 1) - size.y as int
            / 2) as i64,
    }
}

/// Where a gate's output node sits: the midpoint of its right edge.
pub open spec fn gate_output_pos(pos: Vec2i, size: Vec2i) -> Vec2i {
    Vec2i { x: (pos.x + size.x as int / 2) as i64, y: pos.y }
}

/// A gate whose center respects the margin lays every child out inside
/// the canvas.
pub proof fn lemma_layout_in_world(kind: GateType, pos: Vec2i, size: Vec2i, k: int)
    requires
        crate::geometry::in_gate_world(pos),
        crate::geometry::gate_size_ok(size),
        0 <= k < kind.arity(),
    ensures
        crate::geometry::in_world(gate_input_pos(kind, pos, size, k)),
        crate::geometry::in_world(gate_output_pos(pos, size)),
        0 <= ((kind.arity() as int - k) * size.y) / (kind.arity() as int + 1) <= size.y,
        0 <= size.x as int / 2 <= size.x,
        0 <= size.y as int / 2 <= size.y,
{
    let a = kind.arity() as int;
    assert(0 <= (a - k) * size.y && (a - k) * size.y <= (a + 1) * size.y) by (nonlinear_arith)
        requires
            1 <= a - k <= a + 1,
            0 <= size.y < 200_000,
    ;
    crate::geometry::lemma_mul_div_le((a - k) * size.y, a + 1, size.y as int);
    crate::geometry::lemma_mul_div_le(size.x as int, 2, size.x as int);
    crate::geometry::lemma_mul_div_le(size.y as int, 2, size.y as int);
}

/// Runtime layout of input `k`, matching [`gate_input_pos`].
pub fn input_pos_exec(kind: GateType, pos: Vec2i, size: Vec2i, k: usize) -> (r: Vec2i)
    requires
        crate::geometry::in_gate_world(pos),
        crate::geometry::gate_size_ok(size),
        k < kind.arity(),
    ensures
        r == gate_input_pos(kind, pos, size, k as int),
        crate::geometry::in_world(r),
{
    proof {
        lemma_layout_in_world(kind, pos, size, k as int);
    }
    let n = kind.num_inputs();
    let hx: i64 = ((size.x as u64) / 2) as i64;
    let hy: i64 = ((size.y as u64) / 2) as i64;
    proof {
        crate::geometry::lemma_mul_bound(
            (n - k) as int,
            size.y as int,
            3,
            crate::geometry::MAX_GATE_SIZE as int,
        );
    }
    let num: u64 = ((n - k) as u64) * (size.y as u64);
    let q: i64 = (num / ((n as u64) + 1)) as i64;
    proof {
        assert(num == (kind.arity() as int - k) * size.y);
        assert(q == ((kind.arity() as int - k) * size.y) / (kind.arity() as int + 1));
    }
    Vec2i { x: pos.x - hx, y: pos.y + q - hy }
}

/// Runtime layout of the output node, matching [`gate_output_pos`].
pub fn output_pos_exec(pos: Vec2i, size: Vec2i) -> (r: Vec2i)
    requires
        crate::geometry::in_gate_world(pos),
        crate::geometry::gate_size_ok(size),
    ensures
        r == gate_output_pos(pos, size),
        crate::geometry::in_world(r),
{
    proof {
        lemma_layout_in_world(GateType::Not, pos, size, 0);
    }
    let hx: i64 = ((size.x as u64) / 2) as i64;
    Vec2i { x: pos.x + hx, y: pos.y }
}

} // verus!
