//! What holds of the route state across operations: stale writes change
//! nothing, tombstones keep older writes out, the order in which writes
//! arrive does not matter, and recovery keeps the newest state of each
//! service.

use vstd::prelude::*;

use crate::recovery::{merge_all, merge_count};
use crate::failure_detection::first_with_id;
use crate::membership::{peer_requests, status_for, NodeInfo};
use crate::replication::{delete_reply, route_reply, routes_after_delete, routes_after_update, ReplyView};
use crate::routing::{active_view, create_error, create_outcome, ErrorResponse};
use crate::replication::RouteUpdate;
use crate::text::is_blank;
use crate::state::{
    apply_state, entry_map, hands_out, hands_out_above, keys_distinct, lemma_prefix, lemma_push_new, supersedes, RouteMap,
    AppState, RouteState, RouteView,
};

verus! {

/// A write at a version no newer than the one a node holds for the service
/// changes nothing.
pub proof fn stale_write_changes_nothing(m: RouteMap, key: Seq<char>, incoming: RouteView)
    requires
        m.contains_key(key),
        incoming.version() <= m[key].version(),
    ensures
        apply_state(m, key, incoming) == m,
{
}

/// Taking in a write never loses a service and never lowers its version.
pub proof fn versions_never_decrease(m: RouteMap, key: Seq<char>, incoming: RouteView, other: Seq<
    char,
>)
    requires
        m.contains_key(other),
    ensures
        apply_state(m, key, incoming).contains_key(other),
        apply_state(m, key, incoming)[other].version() >= m[other].version(),
{
}

/// Receiving the same write twice is the same as receiving it once.
pub proof fn writes_are_idempotent(m: RouteMap, key: Seq<char>, incoming: RouteView)
    ensures
        apply_state(apply_state(m, key, incoming), key, incoming) == apply_state(m, key, incoming),
{
}

/// Two writes that are not for the same service at the same version can
/// arrive in either order with the same result, so replicas that receive the
/// same writes agree.
pub proof fn writes_commute(
    m: RouteMap,
    k1: Seq<char>,
    s1: RouteView,
    k2: Seq<char>,
    s2: RouteView,
)
    requires
        k1 != k2 || s1.version() != s2.version(),
    ensures
        apply_state(apply_state(m, k1, s1), k2, s2) == apply_state(apply_state(m, k2, s2), k1, s1),
{
    assert(apply_state(apply_state(m, k1, s1), k2, s2) =~= apply_state(
        apply_state(m, k2, s2),
        k1,
        s1,
    ));
}

/// After a replicated deletion at version `v`, a replicated route write for
/// the same service at a version no newer than `v` changes nothing: a deleted
/// route does not come back from an older write.
pub proof fn tombstone_blocks_older_writes(
    m: RouteMap,
    service: Seq<char>,
    v: u64,
    target: Seq<char>,
    w: u64,
    blank: bool,
)
    requires
        w <= v,
    ensures
        routes_after_update(routes_after_delete(m, service, v, false), service, target, w, blank)
            == routes_after_delete(m, service, v, false),
{
}

/// After a route is deleted at this node with version `v`, a replicated route
/// write for it at a version no newer than `v` changes nothing.
pub proof fn local_tombstone_blocks_older_writes(
    m: RouteMap,
    service: Seq<char>,
    v: u64,
    target: Seq<char>,
    w: u64,
    blank: bool,
)
    requires
        w <= v,
    ensures
        routes_after_update(
            m.insert(service, RouteView::Deleted { version: v }),
            service,
            target,
            w,
            blank,
        ) == m.insert(service, RouteView::Deleted { version: v }),
{
}

/// A deletion that is taken in hides the route from the listing.
pub proof fn deleted_route_is_not_listed(m: RouteMap, service: Seq<char>, v: u64)
    requires
        supersedes(m, service, v),
    ensures
        !active_view(routes_after_delete(m, service, v, false)).contains_key(service),
{
}

/// A route that is set to a target at some version is listed with that
/// target and version, and the listing of every other service is unchanged.
pub proof fn set_route_is_listed(m: RouteMap, service: Seq<char>, target: Seq<char>, version: u64)
    ensures
        active_view(m.insert(service, RouteView::Active { target, version })) == active_view(
            m,
        ).insert(service, (target, version)),
{
    assert(active_view(m.insert(service, RouteView::Active { target, version })) =~= active_view(
        m,
    ).insert(service, (target, version)));
}

/// A tombstone set for a service removes it from the listing, and the
/// listing of every other service is unchanged.
pub proof fn tombstone_is_not_listed(m: RouteMap, service: Seq<char>, version: u64)
    ensures
        active_view(m.insert(service, RouteView::Deleted { version })) == active_view(m).remove(
            service,
        ),
{
    assert(active_view(m.insert(service, RouteView::Deleted { version })) =~= active_view(
        m,
    ).remove(service));
}

/// For each service, the newer of the local state and the state in `remote`;
/// the local state where they are at the same version.
pub open spec fn newest_of(local: RouteMap, remote: RouteMap) -> RouteMap {
    Map::new(
        |k: Seq<char>| local.contains_key(k) || remote.contains_key(k),
        |k: Seq<char>|
            if remote.contains_key(k) && supersedes(local, k, remote[k].version()) {
                remote[k]
            } else {
                local[k]
            },
    )
}

/// Recovering from a peer's state, which names each service once, leaves for
/// each service the newer of the local and the peer's state, tombstones
/// included, whatever the order in which the peer listed them.
pub proof fn recovery_keeps_newest(m: RouteMap, remote: Seq<(String, RouteState)>)
    requires
        keys_distinct(remote),
    ensures
        merge_all(m, remote) == newest_of(m, entry_map(remote)),
    decreases remote.len(),
{
    if remote.len() == 0 {
        assert(newest_of(m, entry_map(remote)) =~= m);
    } else {
        let n = remote.len() - 1;
        lemma_prefix(remote, n);
        let prefix = remote.take(n);
        assert(remote.drop_last() == prefix);
        assert(remote.take(n + 1) =~= remote);
        recovery_keeps_newest(m, prefix);
        lemma_push_new(prefix, remote[n]);
        let e = remote[n];
        let r = entry_map(prefix);
        assert(!r.contains_key(e.0@));
        assert(newest_of(m, r.insert(e.0@, e.1@)) =~= apply_state(newest_of(m, r), e.0@, e.1@));
    }
}

/// A peer's entry is newer than what the node holds for its service.
pub open spec fn newer_than(m: RouteMap) -> spec_fn((String, RouteState)) -> bool {
    |e: (String, RouteState)| supersedes(m, e.0@, e.1@.version())
}

/// The number of entries that recovery reports as taken in, for a peer's
/// state that names each service once, is the number of the peer's entries
/// that are newer than what the node held before.
pub proof fn recovery_counts_newer_entries(m: RouteMap, remote: Seq<(String, RouteState)>)
    requires
        keys_distinct(remote),
    ensures
        merge_count(m, remote) == remote.filter(newer_than(m)).len(),
    decreases remote.len(),
{
    reveal(Seq::filter);
    if remote.len() > 0 {
        let n = remote.len() - 1;
        lemma_prefix(remote, n);
        let prefix = remote.take(n);
        assert(remote.drop_last() == prefix);
        recovery_counts_newer_entries(m, prefix);
        recovery_keeps_newest(m, prefix);
        let e = remote[n];
        assert(remote.last() == e);
        lemma_push_new(prefix, e);
        assert(!entry_map(prefix).contains_key(e.0@));
        let before = merge_all(m, prefix);
        assert(before.contains_key(e.0@) == m.contains_key(e.0@));
        assert(before.contains_key(e.0@) ==> before[e.0@] == m[e.0@]);
        assert(supersedes(before, e.0@, e.1@.version()) == newer_than(m)(e));
    }
}

/// Versions handed out one after another, each call going from `states[i]`
/// to `states[i + 1]` and returning `handed[i]`, are c+1, c+2, ... for a
/// counter that starts at c: each is larger than all before it, so no version
/// is handed out twice, and the counter ends at c plus the number of calls.
pub proof fn versions_count_up(states: Seq<AppState>, handed: Seq<u64>)
    requires
        states.len() == handed.len() + 1,
        forall|i: int|
            0 <= i < handed.len() ==> hands_out(#[trigger] states[i], states[i + 1], handed[i]),
    ensures
        forall|i: int| 0 <= i < handed.len() ==> #[trigger] handed[i] == states[0].version + i + 1,
        forall|i: int, j: int| 0 <= i < j < handed.len() ==> #[trigger] handed[i] < #[trigger] handed[j],
        states.last().version == states[0].version + handed.len(),
    decreases handed.len(),
{
    if handed.len() > 0 {
        let n = handed.len() - 1;
        let first = states.drop_last();
        let given = handed.drop_last();
        assert forall|i: int| 0 <= i < given.len() implies hands_out(
            #[trigger] first[i],
            first[i + 1],
            given[i],
        ) by {
            assert(hands_out(states[i], states[i + 1], handed[i]));
        }
        versions_count_up(first, given);
        assert(hands_out(states[n], states[n + 1], handed[n]));
        assert(first.last() == states[n]);
        assert forall|i: int| 0 <= i < handed.len() implies #[trigger] handed[i] == states[0].version
            + i + 1 by {
            if i < n {
                assert(given[i] == handed[i]);
            }
        }
    }
}

/// Versions that local writes take one after another, each call going from
/// `states[i]` to `states[i + 1]` above `floors[i]` (the newest version the
/// node knew for the service written) and returning `handed[i]`, only grow:
/// each is larger than every one before it and than its floor, so no version
/// is handed out twice and none is at or below the state it replaces; the
/// counter ends at the last one.
pub proof fn local_versions_increase(states: Seq<AppState>, floors: Seq<u64>, handed: Seq<u64>)
    requires
        states.len() == handed.len() + 1,
        floors.len() == handed.len(),
        forall|i: int|
            0 <= i < handed.len() ==> hands_out_above(
                #[trigger] states[i],
                states[i + 1],
                floors[i],
                handed[i],
            ),
    ensures
        forall|i: int| 0 <= i < handed.len() ==> #[trigger] handed[i] > floors[i],
        forall|i: int| 0 <= i < handed.len() ==> #[trigger] handed[i] > states[0].version,
        forall|i: int, j: int| 0 <= i < j < handed.len() ==> #[trigger] handed[i] < #[trigger] handed[j],
        handed.len() > 0 ==> states.last().version == handed.last(),
    decreases handed.len(),
{
    if handed.len() > 0 {
        let n = handed.len() - 1;
        let first = states.drop_last();
        let given = handed.drop_last();
        let lows = floors.drop_last();
        assert forall|i: int| 0 <= i < given.len() implies hands_out_above(
            #[trigger] first[i],
            first[i + 1],
            lows[i],
            given[i],
        ) by {
            assert(hands_out_above(states[i], states[i + 1], floors[i], handed[i]));
        }
        local_versions_increase(first, lows, given);
        assert(hands_out_above(states[n], states[n + 1], floors[n], handed[n]));
        assert(first.last() == states[n]);
        assert forall|i: int| 0 <= i < handed.len() implies #[trigger] handed[i] > floors[i] && handed[i]
            > states[0].version by {
            if i < n {
                assert(given[i] == handed[i] && lows[i] == floors[i]);
            } else if n > 0 {
                assert(given[n - 1] == handed[n - 1]);
            }
        }
        assert forall|i: int, j: int| 0 <= i < j < handed.len() implies #[trigger] handed[i]
            < #[trigger] handed[j] by {
            assert(given[i] == handed[i]);
            if j < n {
                assert(given[j] == handed[j]);
            } else if i < n - 1 {
                assert(given[n - 1] == handed[n - 1]);
                assert(given[i] < given[n - 1]);
            } else {
                assert(given[n - 1] == handed[n - 1]);
            }
        }
    }
}

/// A write installs its state exactly when the node does not know the service
/// or knows it at an older version; otherwise the routes stay as they are.
pub proof fn write_installs_when_newer(m: RouteMap, key: Seq<char>, incoming: RouteView)
    ensures
        (!m.contains_key(key) || m[key].version() < incoming.version()) ==> apply_state(
            m,
            key,
            incoming,
        ) == m.insert(key, incoming),
        (m.contains_key(key) && m[key].version() >= incoming.version()) ==> apply_state(
            m,
            key,
            incoming,
        ) == m,
{
}

/// The target is one of the three nodes of the cluster.
pub open spec fn one_of_the_nodes(target: Seq<char>) -> bool {
    target == "node-a"@ || target == "node-b"@ || target == "node-c"@
}

/// The node knows `service` at `version` or at a later version.
pub open spec fn holds_at_or_after(m: RouteMap, service: Seq<char>, version: u64) -> bool {
    m.contains_key(service) && m[service].version() >= version
}

/// A replicated route write that names a service and one of the three nodes,
/// and is newer than what the node holds for the service, is installed as a
/// live route at its version and answered `replicated`; one at a version the
/// node already holds or has passed changes nothing and is answered `stale
/// update` with both versions; a malformed one changes nothing and is
/// rejected, a blank name before an unknown node.
pub proof fn replicated_write_outcomes(
    m: RouteMap,
    service: Seq<char>,
    target: Seq<char>,
    version: u64,
    blank: bool,
)
    ensures
        !blank && one_of_the_nodes(target) && !holds_at_or_after(m, service, version)
            ==> routes_after_update(m, service, target, version, blank) == m.insert(
            service,
            (RouteView::Active { target, version }),
        ),
        !blank && one_of_the_nodes(target) && !holds_at_or_after(m, service, version)
            ==> route_reply(m, service, target, version, blank) == (ReplyView::Applied {
            status: "replicated"@,
            version,
        }),
        !blank && one_of_the_nodes(target) && holds_at_or_after(m, service, version)
            ==> routes_after_update(m, service, target, version, blank) == m,
        !blank && one_of_the_nodes(target) && holds_at_or_after(m, service, version)
            ==> route_reply(m, service, target, version, blank) == (ReplyView::Ignored {
            reason: "stale update"@,
            current_version: m[service].version(),
            received_version: version,
        }),
        blank ==> routes_after_update(m, service, target, version, blank) == m,
        blank ==> route_reply(m, service, target, version, blank) == (ReplyView::Rejected {
            error: "service cannot be empty"@,
        }),
        !blank && !one_of_the_nodes(target) ==> routes_after_update(
            m,
            service,
            target,
            version,
            blank,
        ) == m,
        !blank && !one_of_the_nodes(target) ==> route_reply(m, service, target, version, blank)
            == (ReplyView::Rejected { error: "invalid target node"@ }),
{
}

/// A replicated deletion that is newer than what the node holds for the
/// service leaves a tombstone at its version and is answered `deleted`; one
/// at a version the node already holds or has passed changes nothing, a live
/// route included, and is answered `stale delete` with both versions; one
/// with a blank name changes nothing and is rejected.
pub proof fn replicated_delete_outcomes(m: RouteMap, service: Seq<char>, version: u64, blank: bool)
    ensures
        !blank && !holds_at_or_after(m, service, version) ==> routes_after_delete(
            m,
            service,
            version,
            blank,
        ) == m.insert(service, (RouteView::Deleted { version })),
        !blank && !holds_at_or_after(m, service, version) ==> delete_reply(
            m,
            service,
            version,
            blank,
        ) == (ReplyView::Applied { status: "deleted"@, version }),
        !blank && holds_at_or_after(m, service, version) ==> routes_after_delete(
            m,
            service,
            version,
            blank,
        ) == m,
        !blank && holds_at_or_after(m, service, version) ==> delete_reply(
            m,
            service,
            version,
            blank,
        ) == (ReplyView::Ignored {
            reason: "stale delete"@,
            current_version: m[service].version(),
            received_version: version,
        }),
        blank ==> routes_after_delete(m, service, version, blank) == m,
        blank ==> delete_reply(m, service, version, blank) == (ReplyView::Rejected {
            error: "service cannot be empty"@,
        }),
{
}

/// A route creation is refused only for an empty service name, with `service
/// cannot be empty`, or, for a name that is not empty, for a target that is
/// not one of the three nodes, with `unknown target node`; every other
/// creation is accepted.
pub proof fn creation_refusals(service: Seq<char>, target: Seq<char>)
    ensures
        service.len() == 0 ==> create_error(service, target) == Some("service cannot be empty"@),
        service.len() > 0 && one_of_the_nodes(target) ==> create_error(service, target) is None,
        service.len() > 0 && !one_of_the_nodes(target) ==> create_error(service, target) == Some(
            "unknown target node"@,
        ),
{
}

/// An accepted creation of a route for a name that is not empty, to one of the
/// three nodes, sets that service, and only it, to a live route to the target
/// at a version above the node's counter and above the version held for the
/// service, which becomes the counter; the update it returns carries the
/// service, the target and that version, and peers take it in as well formed.
pub proof fn accepted_creation(
    pre: AppState,
    post: AppState,
    service: Seq<char>,
    target: Seq<char>,
    r: Result<RouteUpdate, ErrorResponse>,
)
    requires
        create_outcome(pre, post, service, target, r),
        service.len() > 0,
        one_of_the_nodes(target),
    ensures
        r is Ok,
        r->Ok_0.service@ == service,
        r->Ok_0.target@ == target,
        post.version == r->Ok_0.version,
        post.version > pre.version,
        pre.routes@.contains_key(service) ==> post.version > pre.routes@[service].version(),
        post.routes@ == pre.routes@.insert(
            service,
            (RouteView::Active { target, version: r->Ok_0.version }),
        ),
        post.node_id == pre.node_id,
        post.nodes == pre.nodes,
{
}

/// The requests of a round go to every node whose name differs from the
/// node's own, in the order of the membership and whatever status it was last
/// seen with, each at its address followed by the path.
pub proof fn peers_are_all_other_nodes(nodes: Seq<NodeInfo>, self_id: Seq<char>, path: Seq<char>)
    ensures
        peer_requests(nodes, self_id, path) == nodes.filter(|n: NodeInfo| n.id@ != self_id).map_values(
            |n: NodeInfo| (n.id@, n.address@ + path),
        ),
    decreases nodes.len(),
{
    reveal(Seq::filter);
    if nodes.len() > 0 {
        peers_are_all_other_nodes(nodes.drop_last(), self_id, path);
        let others = nodes.drop_last().filter(|n: NodeInfo| n.id@ != self_id);
        let node = nodes.last();
        if node.id@ != self_id {
            assert(others.push(node).map_values(|n: NodeInfo| (n.id@, n.address@ + path))
                =~= others.map_values(|n: NodeInfo| (n.id@, n.address@ + path)).push(
                (node.id@, node.address@ + path),
            ));
        }
    }
}

/// A service is listed exactly when the node holds a live route for it, with
/// that route's target and version.
pub proof fn listing_is_the_live_routes(m: RouteMap, service: Seq<char>)
    ensures
        active_view(m).contains_key(service) <==> (m.contains_key(service)
            && m[service] is Active),
        active_view(m).contains_key(service) ==> m[service] == (RouteView::Active {
            target: active_view(m)[service].0,
            version: active_view(m)[service].1,
        }),
{
}

/// A service name is blank exactly when every character of it is whitespace.
pub proof fn blank_is_all_white_space(s: Seq<char>)
    ensures
        is_blank(s) <==> forall|i: int| 0 <= i < s.len() ==> crate::text::is_white_space(#[trigger] s[i]),
{
    crate::text::lemma_leading_white_space(s);
    let lead = crate::text::leading_white_space(s);
    crate::text::lemma_trailing_white_space(crate::text::trimmed_start(s));
    if lead < s.len() {
        let front = crate::text::trimmed_start(s);
        assert(front[0] == s[lead as int]);
        assert(crate::text::trailing_white_space(front) < front.len()) by {
            if crate::text::trailing_white_space(front) == front.len() {
                assert(crate::text::is_white_space(front[0]));
            }
        }
        assert(crate::text::trimmed(s).len() > 0);
    } else {
        assert(crate::text::trimmed(s).len() == 0);
    }
}

/// A refused creation, for an empty name or a target that is not one of the
/// three nodes, returns the refusal and leaves the node exactly as it was.
pub proof fn refused_creation(
    pre: AppState,
    post: AppState,
    service: Seq<char>,
    target: Seq<char>,
    r: Result<RouteUpdate, ErrorResponse>,
)
    requires
        create_outcome(pre, post, service, target, r),
        service.len() == 0 || !one_of_the_nodes(target),
    ensures
        r is Err,
        post == pre,
{
}

/// A health check of node `id` changes the status of the first node of that
/// name in the membership, and of no other, to `healthy` after an answer and
/// to `unhealthy` otherwise; where some node has that name, one does change.
pub proof fn health_check_marks_the_first_node_of_its_name(
    nodes: Seq<NodeInfo>,
    id: Seq<char>,
    healthy: bool,
)
    ensures
        status_for(true) == "healthy"@,
        status_for(false) == "unhealthy"@,
        forall|j: int|
            #[trigger] first_with_id(nodes, id, j) ==> 0 <= j < nodes.len() && nodes[j].id@ == id
                && forall|k: int| 0 <= k < j ==> nodes[k].id@ != id,
        forall|i: int, j: int|
            #[trigger] first_with_id(nodes, id, i) && #[trigger] first_with_id(nodes, id, j) ==> i
                == j,
        (exists|k: int| 0 <= k < nodes.len() && #[trigger] nodes[k].id@ == id) ==> exists|j: int|
            #[trigger] first_with_id(nodes, id, j),
{
    assert forall|i: int, j: int|
        #[trigger] first_with_id(nodes, id, i) && #[trigger] first_with_id(nodes, id, j) implies i
        == j by {
        if i < j {
            assert(nodes[i].id@ == id);
        } else if j < i {
            assert(nodes[j].id@ == id);
        }
    }
    if exists|k: int| 0 <= k < nodes.len() && #[trigger] nodes[k].id@ == id {
        let k = choose|k: int| 0 <= k < nodes.len() && #[trigger] nodes[k].id@ == id;
        lemma_first_match(nodes, id, k);
    }
}

/// Below any position holding a node named `id` there is a first one.
proof fn lemma_first_match(nodes: Seq<NodeInfo>, id: Seq<char>, k: int)
    requires
        0 <= k < nodes.len(),
        nodes[k].id@ == id,
    ensures
        exists|j: int| #[trigger] first_with_id(nodes, id, j),
    decreases k,
{
    if exists|m: int| 0 <= m < k && #[trigger] nodes[m].id@ == id {
        let m = choose|m: int| 0 <= m < k && #[trigger] nodes[m].id@ == id;
        lemma_first_match(nodes, id, m);
    } else {
        assert(first_with_id(nodes, id, k));
    }
}

/// Trimming removes exactly the whitespace at both ends: what is left is a
/// contiguous piece of the string, everything before and after it is
/// whitespace, and the piece, where not empty, starts and ends with a
/// character that is not.
pub proof fn trimming_removes_the_white_space_ends(s: Seq<char>)
    ensures
        exists|i: int, j: int|
            {
                &&& 0 <= i <= j <= s.len()
                &&& #[trigger] s.subrange(i, j) == crate::text::trimmed(s)
                &&& forall|k: int| 0 <= k < i ==> crate::text::is_white_space(#[trigger] s[k])
                &&& forall|k: int| j <= k < s.len() ==> crate::text::is_white_space(#[trigger] s[k])
                &&& i < j ==> !crate::text::is_white_space(s[i]) && !crate::text::is_white_space(
                    s[j - 1],
                )
            },
{
    crate::text::lemma_leading_white_space(s);
    let i = crate::text::leading_white_space(s) as int;
    let front = crate::text::trimmed_start(s);
    crate::text::lemma_trailing_white_space(front);
    let j = i + front.len() - crate::text::trailing_white_space(front);
    assert(s.subrange(i, j) =~= crate::text::trimmed(s));
    assert forall|k: int| j <= k < s.len() implies crate::text::is_white_space(#[trigger] s[k]) by {
        assert(s[k] == front[k - i]);
    }
    if i < j {
        assert(s[i] == front[0]);
        assert(s[j - 1] == front[j - 1 - i]);
        assert(crate::text::trailing_white_space(front) < front.len());
    }
}

} // verus!
