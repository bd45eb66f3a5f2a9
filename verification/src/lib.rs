//! An interactive digital-logic sandbox core: a circuit graph of boolean
//! nodes, delayed wires and combinational gates, together with the tick-based
//! propagation engine and the pointer-gesture state machines that edit the
//! graph. Rendering and window plumbing are left to the surrounding
//! application; this crate owns the data model and its invariants.

pub mod edge;
pub mod frame;
pub mod gate;
pub mod geometry;
pub mod graph;
pub mod hit;
pub mod id;
pub mod interact;
pub mod node;
pub mod propagate;

pub use id::{Arena, Id};
