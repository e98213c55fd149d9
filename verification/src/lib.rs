//! One node of a gossip-based broadcast cluster.
//!
//! The node tracks the set of broadcast values it has seen, the current
//! topology, and, for each neighbor, which values still have to be gossiped
//! and which the neighbor has confirmed.  A single handler consumes inbound
//! messages and timer ticks in arrival order and produces outbound envelopes.


pub mod error;
pub mod handler;
pub mod laws;
pub mod message;
pub mod neighbor;
pub mod state;
pub mod value_set;
