//! Route replication for a small cluster of routing nodes: the route table
//! with its version and tombstone rules, the replication and deletion
//! protocol, state recovery from peers and the bookkeeping of peer health.
//!
//! Networking, timers and locking live around this crate; every decision
//! they act on is made, and verified, here.

pub mod text;
pub mod membership;
pub mod state;
pub mod routing;
pub mod replication;
pub mod api;
pub mod failure_detection;
pub mod recovery;
pub mod laws;
