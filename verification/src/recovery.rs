//! State recovery at start-up: a node asks its peers for their route state
//! and keeps, for each service, the newest state it hears of.

use vstd::prelude::*;

use crate::api::StateResponse;
use crate::membership::{peer_requests, peer_targets, PeerTarget};
use crate::routing::route_version;
use crate::state::{apply_state, supersedes, AppState, RouteMap, RouteState, RouteTable};

verus! {

/// Whether a node recovers state from its peers when it starts: every node
/// but `node-a` does.
pub fn should_recover(node_id: &String) -> (r: bool)
    ensures
        r == (node_id@ != "node-a"@),
{
    let first = String::from_str("node-a");
    *node_id != first
}

/// The path at which a peer hands out its route state.
pub open spec fn state_path() -> Seq<char> {
    "/internal/state"@
}

/// The peers a starting node asks for their state, in order.
pub fn recovery_targets(state: &AppState) -> (r: Vec<PeerTarget>)
    ensures
        r@.map_values(|p: PeerTarget| p@) == peer_requests(
            state.nodes@,
            state.node_id@,
            state_path(),
        ),
{
    peer_targets(&state.nodes, &state.node_id, "/internal/state")
}

/// The routes after taking in a peer's entries in order, each one installed
/// where it supersedes what the node holds by then.
pub open spec fn merge_all(m: RouteMap, remote: Seq<(String, RouteState)>) -> RouteMap
    decreases remote.len(),
{
    if remote.len() == 0 {
        m
    } else {
        let last = remote.last();
        apply_state(merge_all(m, remote.drop_last()), last.0@, last.1@)
    }
}

/// How many of a peer's entries were installed when taken in in order.
pub open spec fn merge_count(m: RouteMap, remote: Seq<(String, RouteState)>) -> nat
    decreases remote.len(),
{
    if remote.len() == 0 {
        0
    } else {
        let last = remote.last();
        let before = merge_all(m, remote.drop_last());
        merge_count(m, remote.drop_last()) + if supersedes(before, last.0@, last.1@.version()) {
            1nat
        } else {
            0nat
        }
    }
}

/// Takes in a peer's route entries: each is installed where the node does not
/// know the service or knows it at an older version. Returns how many were
/// installed.
pub fn merge_remote_routes(routes: &mut RouteTable, remote: &Vec<(String, RouteState)>) -> (recovered:
    usize)
    ensures
        final(routes)@ == merge_all(old(routes)@, remote@),
        recovered == merge_count(old(routes)@, remote@),
{
    let mut recovered: usize = 0;
    let mut i: usize = 0;
    while i < remote.len()
        invariant
            i <= remote@.len(),
            recovered <= i,
            routes@ == merge_all(old(routes)@, remote@.take(i as int)),
            recovered == merge_count(old(routes)@, remote@.take(i as int)),
        decreases remote@.len() - i,
    {
        let entry = &remote[i];
        assert(remote@.take(i + 1).drop_last() =~= remote@.take(i as int));
        assert(remote@.take(i + 1).last() == remote@[i as int]);
        let remote_version = route_version(&entry.1);
        let should_update = match routes.get(&entry.0) {
            Some(local) => remote_version > route_version(local),
            None => true,
        };
        if should_update {
            routes.insert(entry.0.clone(), entry.1.copy());
            recovered = recovered + 1;
        }
        i = i + 1;
    }
    assert(remote@.take(remote@.len() as int) =~= remote@);
    recovered
}

/// Takes in the route state a peer handed out; returns how many of its
/// entries were installed.
pub fn recover_from(state: &mut AppState, remote: &StateResponse) -> (recovered: usize)
    ensures
        final(state).routes@ == merge_all(old(state).routes@, remote.routes@),
        recovered == merge_count(old(state).routes@, remote.routes@),
        final(state).node_id == old(state).node_id,
        final(state).nodes == old(state).nodes,
        final(state).version == old(state).version,
{
    merge_remote_routes(&mut state.routes, &remote.routes)
}

} // verus!
