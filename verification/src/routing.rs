//! The route endpoints of a node: listing routes, creating them and deleting
//! them.

use vstd::prelude::*;

use crate::membership::{peer_requests, peer_targets, PeerTarget};
use crate::replication::{route_update_valid, DeleteUpdate, RouteUpdate};
use crate::state::{
    entry_map, has_key, keys_distinct, lemma_prefix, lemma_push_new, AppState,
    held_version, latest_for, RouteEntry, RouteMap, RouteState, RouteTable, RouteView, Tombstone,
};
use crate::text::{is_blank, is_known_node, known_node, trim_service, trimmed};

verus! {

/// A request to create or update a route.
#[derive(Debug)]
pub struct CreateRouteRequest {
    pub service: String,
    pub target: String,
}

/// A live route as the listing shows it.
#[derive(Debug)]
pub struct RouteResponse {
    pub target: String,
    pub version: u64,
}

impl View for RouteResponse {
    type V = (Seq<char>, u64);

    open spec fn view(&self) -> (Seq<char>, u64) {
        (self.target@, self.version)
    }
}

/// The live routes of a node, each service named once.
#[derive(Debug)]
pub struct RoutesResponse {
    pub node: String,
    pub routes: Vec<(String, RouteResponse)>,
}

/// Why a request was refused.
#[derive(Debug)]
pub struct ErrorResponse {
    pub error: String,
}

/// The version at which a route state was written.
pub fn route_version(route: &RouteState) -> (v: u64)
    ensures
        v == route@.version(),
{
    match route {
        RouteState::Active(entry) => entry.version,
        RouteState::Deleted(tombstone) => tombstone.version,
    }
}

/// The live routes among `m`, each with its target and version; services
/// whose state is a tombstone do not appear.
pub open spec fn active_view(m: RouteMap) -> Map<Seq<char>, (Seq<char>, u64)> {
    Map::new(
        |k: Seq<char>| m.contains_key(k) && m[k] is Active,
        |k: Seq<char>| (m[k]->target, m[k].version()),
    )
}

/// The live routes of a table, listed with each service once.
pub fn active_routes(routes: &RouteTable) -> (r: Vec<(String, RouteResponse)>)
    ensures
        keys_distinct(r@),
        entry_map(r@) == active_view(routes@),
{
    let n = routes.len();
    let ghost listing = routes.listing();
    let mut out: Vec<(String, RouteResponse)> = Vec::new();
    let mut i: usize = 0;
    assert(entry_map(listing.take(0)) =~= Map::<Seq<char>, RouteView>::empty());
    assert(entry_map(out@) =~= active_view(entry_map(listing.take(0))));
    while i < n
        invariant
            n == listing.len(),
            listing == routes.listing(),
            keys_distinct(listing),
            entry_map(listing) == routes@,
            i <= n,
            keys_distinct(out@),
            entry_map(out@) == active_view(entry_map(listing.take(i as int))),
        decreases n - i,
    {
        let entry = routes.entry(i);
        proof {
            lemma_prefix(listing, i as int);
            lemma_push_new(listing.take(i as int), listing[i as int]);
        }
        let ghost before = entry_map(listing.take(i as int));
        let ghost after = entry_map(listing.take(i + 1));
        assert(after == before.insert(entry.0@, entry.1@));
        assert(!before.contains_key(entry.0@));
        match &entry.1 {
            RouteState::Active(route) => {
                let item = (
                    entry.0.clone(),
                    RouteResponse { target: route.target.clone(), version: route.version },
                );
                assert(!has_key(out@, item.0@)) by {
                    assert(!entry_map(out@).contains_key(item.0@));
                }
                proof {
                    lemma_push_new(out@, item);
                }
                out.push(item);
                assert(entry_map(out@) =~= active_view(after));
            },
            RouteState::Deleted(_) => {
                assert(entry_map(out@) =~= active_view(after));
            },
        }
        i = i + 1;
    }
    assert(listing.take(n as int) =~= listing);
    out
}

/// The route listing of a node.
pub fn get_routes(state: &AppState) -> (r: RoutesResponse)
    ensures
        r.node@ == state.node_id@,
        keys_distinct(r.routes@),
        entry_map(r.routes@) == active_view(state.routes@),
{
    RoutesResponse { node: state.node_id.clone(), routes: active_routes(&state.routes) }
}

/// Why a route cannot be created, if it cannot: the service name is empty,
/// or the target is not a node of the cluster.
pub open spec fn create_error(service: Seq<char>, target: Seq<char>) -> Option<Seq<char>> {
    if service.len() == 0 {
        Some("service cannot be empty"@)
    } else if !is_known_node(target) {
        Some("unknown target node"@)
    } else {
        None
    }
}

/// The outcome of creating a route for `service` to `target`: refused with
/// `create_error`'s message and no change, or the route installed with the
/// version after the newest the node knows for the service, which becomes
/// its counter and which the update returned carries. That version is above
/// every version handed out before and above the one held for the service.
pub open spec fn create_outcome(
    pre: AppState,
    post: AppState,
    service: Seq<char>,
    target: Seq<char>,
    r: Result<RouteUpdate, ErrorResponse>,
) -> bool {
    match create_error(service, target) {
        Some(msg) => {
            &&& r is Err
            &&& r->Err_0.error@ == msg
            &&& post == pre
        },
        None => {
            &&& r is Ok
            &&& r->Ok_0.service@ == service
            &&& r->Ok_0.target@ == target
            &&& r->Ok_0.version == latest_for(pre, service) + 1
            &&& post.version == r->Ok_0.version
            &&& post.version > pre.version
            &&& post.version > held_version(pre.routes@, service)
            &&& post.routes@ == pre.routes@.insert(
                service,
                RouteView::Active { target, version: post.version },
            )
            &&& post.node_id == pre.node_id
            &&& post.nodes == pre.nodes
        },
    }
}

/// Checks a route creation for `service`, a name already trimmed: the refusal
/// that `create_error` gives, if any.
pub fn create_request_error(service: &String, target: &String) -> (r: Option<ErrorResponse>)
    ensures
        r is None <==> create_error(service@, target@) is None,
        r matches Some(e) ==> create_error(service@, target@) == Some(e.error@),
{
    if service.as_str().is_empty() {
        return Some(ErrorResponse { error: String::from_str("service cannot be empty") });
    }
    if !known_node(target) {
        return Some(ErrorResponse { error: String::from_str("unknown target node") });
    }
    None
}

/// Creates or overwrites the route of `service`, a name already trimmed, with
/// a version newer than any the node knows for it. Only a creation that is
/// not refused takes a version, so only it needs one to be left.
pub fn install_route(state: &mut AppState, service: String, target: String) -> (r: Result<
    RouteUpdate,
    ErrorResponse,
>)
    requires
        create_error(service@, target@) is None ==> latest_for(*old(state), service@) < u64::MAX,
    ensures
        create_outcome(*old(state), *final(state), service@, target@, r),
{
    match create_request_error(&service, &target) {
        Some(error) => {
            return Err(error);
        },
        None => {},
    }
    let latest = state.latest_version(&service);
    let version = state.next_version_above(latest);
    let update = RouteUpdate { service: service.clone(), target: target.clone(), version };
    state.routes.insert(service, RouteState::Active(RouteEntry { target, version }));
    Ok(update)
}

/// The route creation endpoint: trims the service name and installs the
/// route. The update returned is what the peers are sent, and it passes the
/// checks with which they take in route writes.
pub fn create_route(state: &mut AppState, request: CreateRouteRequest) -> (r: Result<
    RouteUpdate,
    ErrorResponse,
>)
    requires
        create_error(trimmed(request.service@), request.target@) is None ==> latest_for(
            *old(state),
            trimmed(request.service@),
        ) < u64::MAX,
    ensures
        create_outcome(*old(state), *final(state), trimmed(request.service@), request.target@, r),
        r matches Ok(u) ==> route_update_valid(is_blank(u.service@), u.target@),
{
    let service = trim_service(&request.service);
    install_route(state, service, request.target)
}

/// The route deletion endpoint. It always takes a version, the one after the
/// newest the node knows for the service. Where the node holds the service, a
/// tombstone at that version replaces it and the deletion to send the peers
/// is returned; otherwise nothing else changes and the answer is `None` (not
/// found).
pub fn delete_route(state: &mut AppState, service: &String) -> (r: Option<DeleteUpdate>)
    requires
        latest_for(*old(state), service@) < u64::MAX,
    ensures
        final(state).version == latest_for(*old(state), service@) + 1,
        final(state).node_id == old(state).node_id,
        final(state).nodes == old(state).nodes,
        r is Some <==> old(state).routes@.contains_key(service@),
        r matches Some(d) ==> d.service@ == service@ && d.version == final(state).version
            && d.version > old(state).routes@[service@].version()
            && final(state).routes@ == old(state).routes@.insert(
            service@,
            RouteView::Deleted { version: d.version },
        ),
        r is None ==> final(state).routes@ == old(state).routes@,
{
    let latest = state.latest_version(service);
    let version = state.next_version_above(latest);
    if state.routes.get(service).is_none() {
        return None;
    }
    state.routes.insert(service.clone(), RouteState::Deleted(Tombstone { version }));
    Some(DeleteUpdate { service: service.clone(), version })
}

/// The HTTP status of a route creation: 201 when created, 400 when refused.
pub fn create_status(r: &Result<RouteUpdate, ErrorResponse>) -> (c: u16)
    ensures
        c == (if r is Ok { 201u16 } else { 400u16 }),
{
    match r {
        Ok(_) => 201,
        Err(_) => 400,
    }
}

/// The HTTP status of a route deletion: 204 when deleted, 404 when the node
/// held nothing for the service.
pub fn delete_status(r: &Option<DeleteUpdate>) -> (c: u16)
    ensures
        c == (if r is Some { 204u16 } else { 404u16 }),
{
    match r {
        Some(_) => 204,
        None => 404,
    }
}

/// The path at which peers take in route writes.
pub open spec fn replicate_path() -> Seq<char> {
    "/internal/replicate"@
}

/// The path at which peers take in deletions.
pub open spec fn replicate_delete_path() -> Seq<char> {
    "/internal/replicate-delete"@
}

/// Where a route write made at this node is sent: each peer's replication
/// endpoint.
pub fn replication_targets(state: &AppState) -> (r: Vec<PeerTarget>)
    ensures
        r@.map_values(|p: PeerTarget| p@) == peer_requests(
            state.nodes@,
            state.node_id@,
            replicate_path(),
        ),
{
    peer_targets(&state.nodes, &state.node_id, "/internal/replicate")
}

/// Where a deletion made at this node is sent: each peer's deletion endpoint.
pub fn delete_replication_targets(state: &AppState) -> (r: Vec<PeerTarget>)
    ensures
        r@.map_values(|p: PeerTarget| p@) == peer_requests(
            state.nodes@,
            state.node_id@,
            replicate_delete_path(),
        ),
{
    peer_targets(&state.nodes, &state.node_id, "/internal/replicate-delete")
}

} // verus!
