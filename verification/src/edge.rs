//! Edges: directed wires that carry one node's value to another after a
//! fixed transmission delay.
//!
//! The delay is what makes feedback loops well-defined: a change never races
//! through a cycle within one tick. Each edge owns a timer; while the source
//! and destination agree the timer rests in its finished state, and the
//! moment they differ it restarts and counts the delay window down again.

use vstd::prelude::*;

use crate::id::Id;
use crate::node::Node;

verus! {

/// Length of an edge's transmission delay window, in milliseconds.
pub const EDGE_DELAY_MS: u64 = 100;

/// Determines how much a signal has progressed through an edge. The timer is
/// finished once `elapsed` reaches [`EDGE_DELAY_MS`]; `elapsed` never passes
/// the delay, so the in-flight fraction is `elapsed / EDGE_DELAY_MS`.
#[derive(Clone, Copy, Debug, PartialEq, Eq, Structural)]
pub struct EdgeTimer {
    pub elapsed: u64,
}

impl EdgeTimer {
    /// Whether the delay window has fully elapsed.
    pub open spec fn spec_finished(self) -> bool {
        self.elapsed >= EDGE_DELAY_MS
    }

    /// A timer born finished: a fresh edge between agreeing nodes rests
    /// until their values first differ.
    pub fn new_finished() -> (r: EdgeTimer)
        ensures
            r.elapsed == EDGE_DELAY_MS,
    {
        EdgeTimer { elapsed: EDGE_DELAY_MS }
    }

    pub fn finished(&self) -> (r: bool)
        ensures
            r == self.spec_finished(),
    {
        self.elapsed >= EDGE_DELAY_MS
    }
}

/// A directed wire between two nodes, with its delay timer.
pub struct Edge {
    pub from: Id<Node>,
    pub to: Id<Node>,
    pub timer: EdgeTimer,
}

/// The timer value after one edge-phase step, where `a` and `b` are the
/// source and destination values at the start of the tick and `t` the timer.
///
/// A finished timer restarts only when the values disagree; an unfinished
/// one advances by the tick's `dt`, clamping at the delay.
pub open spec fn elapsed_after(a: bool, b: bool, t: u64, dt: u64) -> u64 {
    if t >= EDGE_DELAY_MS {
        if a != b {
            0u64
        } else {
            t
        }
    } else if t + dt >= EDGE_DELAY_MS {
        EDGE_DELAY_MS
    } else {
        (t + dt) as u64
    }
}

/// The destination value after one edge-phase step: the source value is
/// copied across exactly at the step in which the timer finishes.
pub open spec fn value_after(a: bool, b: bool, t: u64, dt: u64) -> bool {
    if t < EDGE_DELAY_MS && t + dt >= EDGE_DELAY_MS {
        a
    } else {
        b
    }
}

/// The state of one edge after `k` edge-phase steps against a fixed source
/// value `a` and tick delta `dt`: first the timer, then the destination
/// value.
pub open spec fn edge_iter(a: bool, b: bool, t: u64, dt: u64, k: nat) -> (u64, bool)
    decreases k,
{
    if k == 0 {
        (t, b)
    } else {
        let prev = edge_iter(a, b, t, dt, (k - 1) as nat);
        (elapsed_after(a, prev.1, prev.0, dt), value_after(a, prev.1, prev.0, dt))
    }
}

/// Delay correctness. Take an edge at rest whose source has just changed
/// to `a` while the destination still holds `b`. The first step only
/// notices the disagreement and restarts the timer, so after `k` steps the
/// timer has accumulated `(k - 1) * dt`; the destination changes exactly
/// once, at the first step by which that accumulation reaches the delay
/// window, and never earlier — afterwards source and destination agree and
/// the edge rests again.
pub proof fn lemma_delay_correctness(a: bool, b: bool, dt: u64, k: nat)
    requires
        a != b,
        1 <= dt,
        1 <= k,
    ensures
        edge_iter(a, b, EDGE_DELAY_MS, dt, k) == (if (k - 1) * dt >= EDGE_DELAY_MS {
            (EDGE_DELAY_MS, a)
        } else {
            ((((k - 1) * dt) as u64), b)
        }),
    decreases k,
{
    if k == 1 {
        assert(edge_iter(a, b, EDGE_DELAY_MS, dt, 0) == (EDGE_DELAY_MS, b));
        assert(edge_iter(a, b, EDGE_DELAY_MS, dt, 1) == (
            elapsed_after(a, b, EDGE_DELAY_MS, dt),
            value_after(a, b, EDGE_DELAY_MS, dt),
        ));
        assert((1 - 1) * dt == 0) by (nonlinear_arith);
    } else {
        lemma_delay_correctness(a, b, dt, (k - 1) as nat);
        let prev = edge_iter(a, b, EDGE_DELAY_MS, dt, (k - 1) as nat);
        assert(edge_iter(a, b, EDGE_DELAY_MS, dt, k) == (
            elapsed_after(a, prev.1, prev.0, dt),
            value_after(a, prev.1, prev.0, dt),
        ));
        assert((k - 1) * dt == (k - 2) * dt + dt) by (nonlinear_arith)
            requires
                k >= 2,
        ;
        if (k - 2) * dt >= EDGE_DELAY_MS {
            assert(prev == (EDGE_DELAY_MS, a));
        } else {
            assert(prev == ((((k - 2) * dt) as u64), b));
            assert(prev.0 == (k - 2) * dt);
        }
    }
}

/// One runtime edge-phase step for a single edge: advances the timer and
/// reports the delivery, exactly as [`elapsed_after`] and [`value_after`]
/// describe.
pub fn step_timer(a: bool, b: bool, t: u64, dt: u64) -> (r: (u64, bool))
    requires
        t <= EDGE_DELAY_MS,
    ensures
        r.0 == elapsed_after(a, b, t, dt),
        r.1 == value_after(a, b, t, dt),
        r.0 <= EDGE_DELAY_MS,
{
    if t >= EDGE_DELAY_MS {
        if a != b {
            (0, b)
        } else {
            (t, b)
        }
    } else if dt >= EDGE_DELAY_MS - t {
        (EDGE_DELAY_MS, a)
    } else {
        (t + dt, b)
    }
}

} // verus!
