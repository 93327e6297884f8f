//! The replication endpoints: how a node takes in route updates and deletions
//! that a peer sends it.

use vstd::prelude::*;

use crate::state::{apply_state, supersedes, AppState, RouteEntry, RouteMap, RouteState, RouteView, Tombstone};
use crate::routing::route_version;
use crate::text::{is_blank, is_known_node, known_node, trim_text};

verus! {

/// A route write sent from the node that made it to its peers.
#[derive(Debug, Clone)]
pub struct RouteUpdate {
    pub service: String,
    pub target: String,
    pub version: u64,
}

/// A route deletion sent from the node that made it to its peers.
#[derive(Debug, Clone)]
pub struct DeleteUpdate {
    pub service: String,
    pub version: u64,
}

/// What a replication endpoint answers.
#[derive(Debug)]
pub enum ReplicationReply {
    /// The message is malformed; nothing changed.
    Rejected { error: String },
    /// The node already holds this service at the same or a newer version;
    /// nothing changed.
    Ignored { reason: String, current_version: u64, received_version: u64 },
    /// The message was installed.
    Applied { status: String, version: u64 },
}

/// The mathematical value of a `ReplicationReply`.
pub ghost enum ReplyView {
    Rejected { error: Seq<char> },
    Ignored { reason: Seq<char>, current_version: u64, received_version: u64 },
    Applied { status: Seq<char>, version: u64 },
}

impl View for ReplicationReply {
    type V = ReplyView;

    open spec fn view(&self) -> ReplyView {
        match self {
            ReplicationReply::Rejected { error } => ReplyView::Rejected { error: error@ },
            ReplicationReply::Ignored { reason, current_version, received_version } =>
                ReplyView::Ignored {
                reason: reason@,
                current_version: *current_version,
                received_version: *received_version,
            },
            ReplicationReply::Applied { status, version } => ReplyView::Applied {
                status: status@,
                version: *version,
            },
        }
    }
}

impl ReplicationReply {
    /// The HTTP status of the answer: 400 for a rejected message, 200
    /// otherwise.
    pub fn status_code(&self) -> (c: u16)
        ensures
            c == (if self@ is Rejected { 400u16 } else { 200u16 }),
    {
        match self {
            ReplicationReply::Rejected { .. } => 400,
            _ => 200,
        }
    }
}

/// Whether a service name is blank, by `str::trim`.
pub fn service_is_blank(service: &String) -> (r: bool)
    ensures
        r == is_blank(service@),
{
    trim_text(service.as_str()).is_empty()
}

/// A replicated route write is well formed: it names a service and one of the
/// known nodes.
pub open spec fn route_update_valid(blank: bool, target: Seq<char>) -> bool {
    !blank && is_known_node(target)
}

/// The answer to a replicated route write, given whether its service name is
/// blank and the routes it arrives at.
pub open spec fn route_reply(
    m: RouteMap,
    service: Seq<char>,
    target: Seq<char>,
    version: u64,
    blank: bool,
) -> ReplyView {
    if blank {
        ReplyView::Rejected { error: "service cannot be empty"@ }
    } else if !is_known_node(target) {
        ReplyView::Rejected { error: "invalid target node"@ }
    } else if !supersedes(m, service, version) {
        ReplyView::Ignored {
            reason: "stale update"@,
            current_version: m[service].version(),
            received_version: version,
        }
    } else {
        ReplyView::Applied { status: "replicated"@, version }
    }
}

/// The routes after a replicated route write: installed where well formed and
/// newer than what the node holds.
pub open spec fn routes_after_update(
    m: RouteMap,
    service: Seq<char>,
    target: Seq<char>,
    version: u64,
    blank: bool,
) -> RouteMap {
    if route_update_valid(blank, target) {
        apply_state(m, service, RouteView::Active { target, version })
    } else {
        m
    }
}

/// Takes in a replicated route write, told whether its service name is blank.
pub fn receive_route_update(state: &mut AppState, update: RouteUpdate, blank: bool) -> (reply:
    ReplicationReply)
    ensures
        reply@ == route_reply(
            old(state).routes@,
            update.service@,
            update.target@,
            update.version,
            blank,
        ),
        final(state).routes@ == routes_after_update(
            old(state).routes@,
            update.service@,
            update.target@,
            update.version,
            blank,
        ),
        final(state).node_id == old(state).node_id,
        final(state).nodes == old(state).nodes,
        final(state).version == old(state).version,
{
    if blank {
        return ReplicationReply::Rejected { error: String::from_str("service cannot be empty") };
    }
    if !known_node(&update.target) {
        return ReplicationReply::Rejected { error: String::from_str("invalid target node") };
    }
    match state.routes.get(&update.service) {
        Some(existing) => {
            let current = route_version(existing);
            if current >= update.version {
                return ReplicationReply::Ignored {
                    reason: String::from_str("stale update"),
                    current_version: current,
                    received_version: update.version,
                };
            }
        },
        None => {},
    }
    let version = update.version;
    state.routes.insert(
        update.service,
        RouteState::Active(RouteEntry { target: update.target, version }),
    );
    ReplicationReply::Applied { status: String::from_str("replicated"), version }
}

/// The replication endpoint for route writes.
pub fn replicate_route(state: &mut AppState, update: RouteUpdate) -> (reply: ReplicationReply)
    ensures
        reply@ == route_reply(
            old(state).routes@,
            update.service@,
            update.target@,
            update.version,
            is_blank(update.service@),
        ),
        final(state).routes@ == routes_after_update(
            old(state).routes@,
            update.service@,
            update.target@,
            update.version,
            is_blank(update.service@),
        ),
        final(state).node_id == old(state).node_id,
        final(state).nodes == old(state).nodes,
        final(state).version == old(state).version,
{
    let blank = service_is_blank(&update.service);
    receive_route_update(state, update, blank)
}

/// The answer to a replicated deletion, given whether its service name is
/// blank and the routes it arrives at.
pub open spec fn delete_reply(m: RouteMap, service: Seq<char>, version: u64, blank: bool) -> ReplyView {
    if blank {
        ReplyView::Rejected { error: "service cannot be empty"@ }
    } else if !supersedes(m, service, version) {
        ReplyView::Ignored {
            reason: "stale delete"@,
            current_version: m[service].version(),
            received_version: version,
        }
    } else {
        ReplyView::Applied { status: "deleted"@, version }
    }
}

/// The routes after a replicated deletion: a tombstone is installed where the
/// name is not blank and the deletion is newer than what the node holds.
pub open spec fn routes_after_delete(m: RouteMap, service: Seq<char>, version: u64, blank: bool) -> RouteMap {
    if blank {
        m
    } else {
        apply_state(m, service, RouteView::Deleted { version })
    }
}

/// Takes in a replicated deletion, told whether its service name is blank.
pub fn receive_delete_update(state: &mut AppState, update: DeleteUpdate, blank: bool) -> (reply:
    ReplicationReply)
    ensures
        reply@ == delete_reply(old(state).routes@, update.service@, update.version, blank),
        final(state).routes@ == routes_after_delete(
            old(state).routes@,
            update.service@,
            update.version,
            blank,
        ),
        final(state).node_id == old(state).node_id,
        final(state).nodes == old(state).nodes,
        final(state).version == old(state).version,
{
    if blank {
        return ReplicationReply::Rejected { error: String::from_str("service cannot be empty") };
    }
    match state.routes.get(&update.service) {
        Some(existing) => {
            let current = route_version(existing);
            if current >= update.version {
                return ReplicationReply::Ignored {
                    reason: String::from_str("stale delete"),
                    current_version: current,
                    received_version: update.version,
                };
            }
        },
        None => {},
    }
    let version = update.version;
    state.routes.insert(update.service, RouteState::Deleted(Tombstone { version }));
    ReplicationReply::Applied { status: String::from_str("deleted"), version }
}

/// The replication endpoint for deletions.
pub fn replicate_delete(state: &mut AppState, update: DeleteUpdate) -> (reply: ReplicationReply)
    ensures
        reply@ == delete_reply(
            old(state).routes@,
            update.service@,
            update.version,
            is_blank(update.service@),
        ),
        final(state).routes@ == routes_after_delete(
            old(state).routes@,
            update.service@,
            update.version,
            is_blank(update.service@),
        ),
        final(state).node_id == old(state).node_id,
        final(state).nodes == old(state).nodes,
        final(state).version == old(state).version,
{
    let blank = service_is_blank(&update.service);
    receive_delete_update(state, update, blank)
}

} // verus!
