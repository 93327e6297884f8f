//! The informational endpoints of a node: its health, the cluster as it sees
//! it, and its full route state for peers that recover from it.

use vstd::prelude::*;

use crate::state::{entry_map, keys_distinct, lemma_same_listing, AppState, RouteState};

verus! {

/// The answer to a health check.
#[derive(Debug)]
pub struct HealthResponse {
    pub status: String,
    pub node: String,
}

/// One node as the membership listing shows it.
#[derive(Debug)]
pub struct NodeInfoResponse {
    pub id: String,
    pub address: String,
    pub status: String,
}

/// The full route state of a node, tombstones included, each service once.
#[derive(Debug)]
pub struct StateResponse {
    pub routes: Vec<(String, RouteState)>,
}

/// A node that answers is healthy: it says so, with its name.
pub fn health(state: &AppState) -> (r: HealthResponse)
    ensures
        r.status@ == "healthy"@,
        r.node@ == state.node_id@,
{
    HealthResponse { status: String::from_str("healthy"), node: state.node_id.clone() }
}

/// The cluster as the node sees it, in order, with the last known status of
/// each node.
pub fn get_nodes(state: &AppState) -> (r: Vec<NodeInfoResponse>)
    ensures
        r@.len() == state.nodes@.len(),
        forall|i: int|
            0 <= i < r@.len() ==> #[trigger] r@[i].id@ == state.nodes@[i].id@ && r@[i].address@
                == state.nodes@[i].address@ && r@[i].status@ == state.nodes@[i].status@,
{
    let mut out: Vec<NodeInfoResponse> = Vec::new();
    let mut i: usize = 0;
    while i < state.nodes.len()
        invariant
            i <= state.nodes@.len(),
            out@.len() == i,
            forall|j: int|
                0 <= j < i ==> #[trigger] out@[j].id@ == state.nodes@[j].id@ && out@[j].address@
                    == state.nodes@[j].address@ && out@[j].status@ == state.nodes@[j].status@,
        decreases state.nodes@.len() - i,
    {
        let node = &state.nodes[i];
        out.push(
            NodeInfoResponse {
                id: node.id.clone(),
                address: node.address.clone(),
                status: node.status.clone(),
            },
        );
        i = i + 1;
    }
    out
}

/// The node's full route state, live routes and tombstones alike.
pub fn get_state(state: &AppState) -> (r: StateResponse)
    ensures
        keys_distinct(r.routes@),
        entry_map(r.routes@) == state.routes@,
{
    let n = state.routes.len();
    let ghost listing = state.routes.listing();
    let mut out: Vec<(String, RouteState)> = Vec::new();
    let mut i: usize = 0;
    while i < n
        invariant
            n == listing.len(),
            listing == state.routes.listing(),
            i <= n,
            out@.len() == i,
            forall|j: int|
                0 <= j < i ==> #[trigger] out@[j].0@ == listing[j].0@ && out@[j].1@ == listing[j].1@,
        decreases n - i,
    {
        let entry = state.routes.entry(i);
        out.push((entry.0.clone(), entry.1.copy()));
        i = i + 1;
    }
    proof {
        lemma_same_listing(out@, listing);
    }
    StateResponse { routes: out }
}

} // verus!
