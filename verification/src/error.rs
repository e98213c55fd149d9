//! The fatal conditions the protocol machine can report.

use vstd::prelude::*;

verus! {

/// Every variant is fatal: the node stops rather than retrying.
#[derive(Debug, Clone, Copy, PartialEq, Eq)]
pub enum Error {
    /// An operation that needs state arrived before `Init`.
    Uninitialized,
    /// A `Topology` message that does not mention this node.
    TopologyNotFound,
    /// A gossip confirmation from a node that is not a neighbor.
    UnknownNeighbor,
    /// A reply of a kind this node never solicited.
    UnexpectedReply,
    /// The external id generator failed.
    IdGeneration,
}

} // verus!
