//! The node a pool connects to, as far as the pool is concerned.

use vstd::prelude::*;

verus! {

/// Liveness of a node.
#[derive(Clone, Copy, Debug, PartialEq, Eq, Structural)]
pub enum NodeState {
    /// The node takes requests.
    Up,
    /// No connection to the node works at the moment.
    Down,
    /// The node was given up for the lifetime of its pool.
    ForcedDown,
}

/// A transition the pool's tasks ask of the node.
#[derive(Clone, Copy, Debug, PartialEq, Eq, Structural)]
pub enum NodeAction {
    MarkUp,
    MarkDown,
    ForceDown,
}

} // verus!
