//! Peer health: which peers a node checks, and how an answer, or the lack of
//! one, changes what the node knows of the cluster.

use vstd::prelude::*;

use crate::membership::{peer_requests, peer_targets, status_for, status_text, NodeInfo, PeerTarget};
use crate::state::AppState;

verus! {

/// The path of a node's health endpoint.
pub open spec fn health_path() -> Seq<char> {
    "/health"@
}

/// The health checks that a node makes in a round: one to each peer.
pub fn health_check_targets(state: &AppState) -> (r: Vec<PeerTarget>)
    ensures
        r@.map_values(|p: PeerTarget| p@) == peer_requests(
            state.nodes@,
            state.node_id@,
            health_path(),
        ),
{
    peer_targets(&state.nodes, &state.node_id, "/health")
}

/// Position `j` holds the first node named `id`.
pub open spec fn first_with_id(nodes: Seq<NodeInfo>, id: Seq<char>, j: int) -> bool {
    &&& 0 <= j < nodes.len()
    &&& nodes[j].id@ == id
    &&& forall|k: int| 0 <= k < j ==> #[trigger] nodes[k].id@ != id
}

/// Records the outcome of a health check of node `id`: the first node of that
/// name gets the status for `healthy`; every other node, and every name and
/// address, stays as it was.
pub fn record_health(nodes: &mut Vec<NodeInfo>, id: &String, healthy: bool)
    ensures
        final(nodes)@.len() == old(nodes)@.len(),
        forall|j: int|
            0 <= j < old(nodes)@.len() ==> #[trigger] final(nodes)@[j].id@ == old(nodes)@[j].id@
                && final(nodes)@[j].address@ == old(nodes)@[j].address@ && final(nodes)@[j].status@
                == (if first_with_id(old(nodes)@, id@, j) {
                status_for(healthy)
            } else {
                old(nodes)@[j].status@
            }),
{
    let mut i: usize = 0;
    while i < nodes.len()
        invariant
            nodes@ == old(nodes)@,
            i <= nodes@.len(),
            forall|k: int| 0 <= k < i ==> #[trigger] nodes@[k].id@ != id@,
        decreases nodes@.len() - i,
    {
        if nodes[i].id == *id {
            let updated = NodeInfo {
                id: nodes[i].id.clone(),
                address: nodes[i].address.clone(),
                status: status_text(healthy),
            };
            nodes.set(i, updated);
            assert forall|j: int| 0 <= j < old(nodes)@.len() && j != i implies !first_with_id(
                old(nodes)@,
                id@,
                j,
            ) by {
                if j > i {
                    assert(old(nodes)@[i as int].id@ == id@);
                }
            }
            return;
        }
        i = i + 1;
    }
}

/// Records the outcome of a health check in the node's state; nothing but
/// the checked node's status changes.
pub fn observe_health(state: &mut AppState, id: &String, healthy: bool)
    ensures
        final(state).node_id == old(state).node_id,
        final(state).routes == old(state).routes,
        final(state).version == old(state).version,
        final(state).nodes@.len() == old(state).nodes@.len(),
        forall|j: int|
            0 <= j < old(state).nodes@.len() ==> #[trigger] final(state).nodes@[j].id@ == old(
                state,
            ).nodes@[j].id@ && final(state).nodes@[j].address@ == old(state).nodes@[j].address@
                && final(state).nodes@[j].status@ == (if first_with_id(old(state).nodes@, id@, j) {
                status_for(healthy)
            } else {
                old(state).nodes@[j].status@
            }),
{
    record_health(&mut state.nodes, id, healthy);
}

} // verus!
