//! Plane geometry over integer world coordinates.
//!
//! Positions are whole world units in a bounded canvas, so every squared
//! distance and cross product below fits comfortably in machine integers.
//! The hit-testing rules live here as pure predicates: a node is hit inside
//! an open disc, an edge within a fixed width of an approximate
//! point-to-segment distance, a gate inside an open axis-aligned box.

use vstd::prelude::*;

verus! {

/// Largest magnitude a stored or queried coordinate may have.
pub const MAX_COORD: i64 = 1_000_000;

/// Largest magnitude of a gate center coordinate; the margin below
/// [`MAX_COORD`] keeps every child node a gate lays out inside the world.
pub const MAX_GATE_POS: i64 = 900_000;

/// Largest gate extent along either axis.
pub const MAX_GATE_SIZE: i64 = 100_000;

/// Radius of a node's disc, for hit-testing.
pub const NODE_RADIUS: i64 = 15;

/// A pointer within this distance of a wire's segment hits it.
pub const EDGE_HIT_WIDTH: i64 = 5;

/// Cell size of the grid that dragged gates snap to.
pub const GRID: i64 = 20;

/// A point of the world plane, in whole world units.
#[derive(Clone, Copy, Debug, PartialEq, Eq, Structural)]
pub struct Vec2i {
    pub x: i64,
    pub y: i64,
}

impl Vec2i {
    pub fn new(x: i64, y: i64) -> (r: Vec2i)
        ensures
            r == (Vec2i { x, y }),
    {
        Vec2i { x, y }
    }
}

/// Whether a point lies in the bounded canvas.
pub open spec fn in_world(p: Vec2i) -> bool {
    &&& -MAX_COORD <= p.x <= MAX_COORD
    &&& -MAX_COORD <= p.y <= MAX_COORD
}

/// Whether a gate center leaves room for its children inside the canvas.
pub open spec fn in_gate_world(p: Vec2i) -> bool {
    &&& -MAX_GATE_POS <= p.x <= MAX_GATE_POS
    &&& -MAX_GATE_POS <= p.y <= MAX_GATE_POS
}

/// Whether `s` is an acceptable gate extent.
pub open spec fn gate_size_ok(s: Vec2i) -> bool {
    &&& 1 <= s.x <= MAX_GATE_SIZE
    &&& 1 <= s.y <= MAX_GATE_SIZE
}

/// Squared euclidean distance.
pub open spec fn dist2(a: Vec2i, b: Vec2i) -> int {
    (a.x - b.x) * (a.x - b.x) + (a.y - b.y) * (a.y - b.y)
}

/// Twice the signed area of the triangle `a`, `b`, `p`: the numerator of the
/// perpendicular distance from `p` to the line through `a` and `b`.
pub open spec fn line_cross(a: Vec2i, b: Vec2i, p: Vec2i) -> int {
    (b.x - a.x) * (a.y - p.y) - (a.x - p.x) * (b.y - a.y)
}

/// Whether the pointer `p` hits a node drawn at `center`: strictly inside the
/// disc, so a point at distance exactly [`NODE_RADIUS`] is a miss.
pub open spec fn node_hovered(center: Vec2i, p: Vec2i) -> bool {
    dist2(p, center) < NODE_RADIUS * NODE_RADIUS
}

/// Whether the pointer `p` hits a wire drawn from `a` to `b`.
///
/// The distance used is `min(perpendicular-line distance, |pa|, |pb|)`, a
/// cheap segment-bounded approximation rather than an exact clamped
/// projection; the minimum is under [`EDGE_HIT_WIDTH`] exactly when one of
/// the three distances is. For a degenerate segment (`a == b`) only the
/// endpoint distances apply.
pub open spec fn edge_hovered(a: Vec2i, b: Vec2i, p: Vec2i) -> bool {
    ||| dist2(p, a) < EDGE_HIT_WIDTH * EDGE_HIT_WIDTH
    ||| dist2(p, b) < EDGE_HIT_WIDTH * EDGE_HIT_WIDTH
    ||| (dist2(a, b) != 0 && line_cross(a, b, p) * line_cross(a, b, p) < EDGE_HIT_WIDTH
        * EDGE_HIT_WIDTH * dist2(a, b))
}

/// Whether the pointer `p` lies strictly inside the box of a gate centered at
/// `pos` with extents `size` (halved with truncating division).
pub open spec fn in_gate_box(pos: Vec2i, size: Vec2i, p: Vec2i) -> bool {
    &&& pos.x - size.x / 2 < p.x < pos.x + size.x / 2
    &&& pos.y - size.y / 2 < p.y < pos.y + size.y / 2
}

/// A coordinate rounded to the nearest multiple of [`GRID`], halves rounding
/// away from zero.
pub open spec fn snap1(v: int) -> int {
    if v >= 0 {
        ((v + GRID as int / 2) / GRID as int) * GRID as int
    } else {
        -(((-v + GRID as int / 2) / GRID as int) * GRID as int)
    }
}

/// A point with both coordinates snapped to the grid.
pub open spec fn snap(p: Vec2i) -> Vec2i {
    Vec2i { x: snap1(p.x as int) as i64, y: snap1(p.y as int) as i64 }
}

/// A coordinate clamped to the range of legal gate centers.
pub open spec fn clamp_gate1(v: int) -> int {
    if v < -MAX_GATE_POS {
        -MAX_GATE_POS as int
    } else if v > MAX_GATE_POS {
        MAX_GATE_POS as int
    } else {
        v
    }
}

/// A point clamped to the box of legal gate centers.
pub open spec fn clamp_gate(p: Vec2i) -> Vec2i {
    Vec2i { x: clamp_gate1(p.x as int) as i64, y: clamp_gate1(p.y as int) as i64 }
}

pub proof fn lemma_square_bound(x: int, b: int)
    by (nonlinear_arith)
    requires
        -b <= x <= b,
    ensures
        0 <= x * x <= b * b,
{
}

/// For nonnegative `num` at most `d * s`, the quotient `num / d` lies in
/// `[0, s]`.
pub proof fn lemma_mul_div_le(num: int, d: int, s: int)
    requires
        0 <= num,
        num <= d * s,
        1 <= d,
        0 <= s,
    ensures
        0 <= num / d <= s,
{
    vstd::arithmetic::div_mod::lemma_fundamental_div_mod(num, d);
    vstd::arithmetic::div_mod::lemma_mod_bound(num, d);
    let q = num / d;
    assert(d * q == num - num % d);
    assert(q <= s) by (nonlinear_arith)
        requires
            d * q <= d * s,
            1 <= d,
    ;
    assert(q >= 0) by (nonlinear_arith)
        requires
            d * q > -d,
            1 <= d,
    ;
}

pub proof fn lemma_mul_bound(x: int, y: int, bx: int, by: int)
    by (nonlinear_arith)
    requires
        -bx <= x <= bx,
        -by <= y <= by,
        0 <= bx,
        0 <= by,
    ensures
        -(bx * by) <= x * y <= bx * by,
{
}

/// Exact squared distance between two in-world points.
pub fn dist2_exec(a: Vec2i, b: Vec2i) -> (r: i64)
    requires
        in_world(a),
        in_world(b),
    ensures
        r == dist2(a, b),
{
    let dx = a.x - b.x;
    let dy = a.y - b.y;
    proof {
        lemma_square_bound(dx as int, 2 * MAX_COORD as int);
        lemma_square_bound(dy as int, 2 * MAX_COORD as int);
    }
    dx * dx + dy * dy
}

/// Runtime check of [`node_hovered`].
pub fn node_hovered_exec(center: Vec2i, p: Vec2i) -> (r: bool)
    requires
        in_world(center),
        in_world(p),
    ensures
        r == node_hovered(center, p),
{
    dist2_exec(p, center) < NODE_RADIUS * NODE_RADIUS
}

/// Runtime check of [`edge_hovered`].
pub fn edge_hovered_exec(a: Vec2i, b: Vec2i, p: Vec2i) -> (r: bool)
    requires
        in_world(a),
        in_world(b),
        in_world(p),
    ensures
        r == edge_hovered(a, b, p),
{
    let w2 = EDGE_HIT_WIDTH * EDGE_HIT_WIDTH;
    if dist2_exec(p, a) < w2 || dist2_exec(p, b) < w2 {
        return true;
    }
    let ab2 = dist2_exec(a, b);
    if ab2 == 0 {
        return false;
    }
    proof {
        lemma_mul_bound((b.x - a.x) as int, (a.y - p.y) as int, 2 * MAX_COORD as int, 2
            * MAX_COORD as int);
        lemma_mul_bound((a.x - p.x) as int, (b.y - a.y) as int, 2 * MAX_COORD as int, 2
            * MAX_COORD as int);
    }
    let cross: i64 = (b.x - a.x) * (a.y - p.y) - (a.x - p.x) * (b.y - a.y);
    proof {
        lemma_square_bound(cross as int, 8_000_000_000_000int);
    }
    let c2: i128 = (cross as i128) * (cross as i128);
    c2 < 25i128 * (ab2 as i128)
}

/// Runtime check of [`in_gate_box`].
pub fn in_gate_box_exec(pos: Vec2i, size: Vec2i, p: Vec2i) -> (r: bool)
    requires
        in_gate_world(pos),
        gate_size_ok(size),
    ensures
        r == in_gate_box(pos, size, p),
{
    let hx = size.x / 2;
    let hy = size.y / 2;
    pos.x - hx < p.x && p.x < pos.x + hx && pos.y - hy < p.y && p.y < pos.y + hy
}

/// Runtime grid snap of one coordinate.
pub fn snap1_exec(v: i64) -> (r: i64)
    requires
        -4 * MAX_COORD <= v <= 4 * MAX_COORD,
    ensures
        r == snap1(v as int),
        -4 * MAX_COORD - GRID / 2 <= r <= 4 * MAX_COORD + GRID / 2,
{
    if v >= 0 {
        let q = (v + GRID / 2) / GRID;
        proof {
            vstd::arithmetic::div_mod::lemma_fundamental_div_mod((v + GRID / 2) as int,
                GRID as int);
            vstd::arithmetic::div_mod::lemma_mod_bound((v + GRID / 2) as int, GRID as int);
        }
        q * GRID
    } else {
        let q = (-v + GRID / 2) / GRID;
        proof {
            vstd::arithmetic::div_mod::lemma_fundamental_div_mod((-v + GRID / 2) as int,
                GRID as int);
            vstd::arithmetic::div_mod::lemma_mod_bound((-v + GRID / 2) as int, GRID as int);
        }
        -(q * GRID)
    }
}

/// Runtime grid snap of a point.
pub fn snap_exec(p: Vec2i) -> (r: Vec2i)
    requires
        -4 * MAX_COORD <= p.x <= 4 * MAX_COORD,
        -4 * MAX_COORD <= p.y <= 4 * MAX_COORD,
    ensures
        r == snap(p),
{
    Vec2i { x: snap1_exec(p.x), y: snap1_exec(p.y) }
}

/// Runtime clamp of a point into the box of legal gate centers.
pub fn clamp_gate_exec(p: Vec2i) -> (r: Vec2i)
    ensures
        r == clamp_gate(p),
        in_gate_world(r),
{
    let x = if p.x < -MAX_GATE_POS {
        -MAX_GATE_POS
    } else if p.x > MAX_GATE_POS {
        MAX_GATE_POS
    } else {
        p.x
    };
    let y = if p.y < -MAX_GATE_POS {
        -MAX_GATE_POS
    } else if p.y > MAX_GATE_POS {
        MAX_GATE_POS
    } else {
        p.y
    };
    Vec2i { x, y }
}

} // verus!
