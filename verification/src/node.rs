//! Nodes: single boolean signal points with a position.
//!
//! A node's role is not stored: it is implied by graph shape. It may be a
//! free user-toggleable input, the destination of an edge, or one of a gate's
//! owned children.

use vstd::prelude::*;

use crate::geometry::Vec2i;

verus! {

/// One boolean signal point on the canvas.
#[derive(Clone, Copy, Debug, PartialEq, Eq, Structural)]
pub struct Node {
    pub value: bool,
    pub pos: Vec2i,
}

impl Node {
    /// A fresh node: off, at `pos`.
    pub fn new(pos: Vec2i) -> (r: Node)
        ensures
            r == (Node { value: false, pos }),
    {
        Node { value: false, pos }
    }
}

} // verus!
