use rust_distributed_routing::api::{get_nodes, get_state, StateResponse};
use rust_distributed_routing::failure_detection::{health_check_targets, observe_health, record_health};
use rust_distributed_routing::membership::{default_membership, peer_targets, status_text};
use rust_distributed_routing::recovery::{merge_remote_routes, recover_from, recovery_targets, should_recover};
use rust_distributed_routing::replication::{
    receive_route_update, replicate_delete, replicate_route, service_is_blank, DeleteUpdate,
    ReplicationReply, RouteUpdate,
};
use rust_distributed_routing::routing::{
    active_routes, create_request_error, create_route, create_status, delete_replication_targets, delete_route,
    delete_status, get_routes, install_route, replication_targets, route_version,
    CreateRouteRequest,
};
use rust_distributed_routing::state::{AppState, RouteEntry, RouteState, RouteTable, Tombstone};
use rust_distributed_routing::text::{known_node, trim_service};

fn node(id: &str) -> AppState {
    AppState::new(id.to_string())
}

fn update(service: &str, target: &str, version: u64) -> RouteUpdate {
    RouteUpdate { service: service.to_string(), target: target.to_string(), version }
}

fn deletion(service: &str, version: u64) -> DeleteUpdate {
    DeleteUpdate { service: service.to_string(), version }
}

fn active(target: &str, version: u64) -> RouteState {
    RouteState::Active(RouteEntry { target: target.to_string(), version })
}

fn deleted(version: u64) -> RouteState {
    RouteState::Deleted(Tombstone { version })
}

/// The live routes of a node as sorted (service, target, version) triples.
fn listing(state: &AppState) -> Vec<(String, String, u64)> {
    let mut out: Vec<(String, String, u64)> = get_routes(state)
        .routes
        .into_iter()
        .map(|(service, route)| (service, route.target, route.version))
        .collect();
    out.sort();
    out
}

/// The full route state of a node as sorted (service, target or "", version,
/// live) entries.
fn full_state(state: &AppState) -> Vec<(String, String, u64, bool)> {
    let StateResponse { routes } = get_state(state);
    let mut out: Vec<(String, String, u64, bool)> = routes
        .into_iter()
        .map(|(service, route)| match route {
            RouteState::Active(entry) => (service, entry.target, entry.version, true),
            RouteState::Deleted(tombstone) => (service, String::new(), tombstone.version, false),
        })
        .collect();
    out.sort();
    out
}

fn triple(service: &str, target: &str, version: u64) -> (String, String, u64) {
    (service.to_string(), target.to_string(), version)
}

#[test]
fn next_version_counts_up_from_one() {
    let mut state = node("node-a");
    assert_eq!(state.version, 0);
    assert_eq!(state.next_version(), 1);
    assert_eq!(state.next_version(), 2);
    assert_eq!(state.version, 2);
}

#[test]
fn create_route_trims_the_service_name() {
    let mut state = node("node-a");
    let result = create_route(
        &mut state,
        CreateRouteRequest { service: "  checkout \t".to_string(), target: "node-c".to_string() },
    );
    let update = result.ok().expect("a valid request is accepted");
    assert_eq!(update.service, "checkout");
    assert_eq!(update.target, "node-c");
    assert_eq!(update.version, 1);
    assert_eq!(listing(&state), vec![triple("checkout", "node-c", 1)]);
}

#[test]
fn trim_service_removes_surrounding_whitespace_only() {
    assert_eq!(trim_service(&"  check out \n".to_string()), "check out");
    assert_eq!(trim_service(&"payments".to_string()), "payments");
    let once = trim_service(&"\u{a0} orders \u{2003}".to_string());
    assert_eq!(once, "orders");
    assert_eq!(trim_service(&once), once);
    assert!(service_is_blank(&" \t\n".to_string()));
    assert!(service_is_blank(&String::new()));
    assert!(!service_is_blank(&" a ".to_string()));
}

#[test]
fn create_route_refusals_leave_the_node_unchanged() {
    let mut state = node("node-a");
    let blank = create_route(
        &mut state,
        CreateRouteRequest { service: "   ".to_string(), target: "node-a".to_string() },
    );
    assert_eq!(blank.err().unwrap().error, "service cannot be empty");
    let unknown = create_route(
        &mut state,
        CreateRouteRequest { service: "payments".to_string(), target: "node-d".to_string() },
    );
    assert_eq!(unknown.err().unwrap().error, "unknown target node");
    assert_eq!(state.version, 0);
    assert!(listing(&state).is_empty());
}

#[test]
fn install_route_overwrites_with_the_next_version() {
    let mut state = node("node-b");
    let first = install_route(&mut state, "payments".to_string(), "node-a".to_string());
    assert_eq!(create_status(&first), 201);
    let second = install_route(&mut state, "payments".to_string(), "node-b".to_string());
    assert_eq!(second.ok().unwrap().version, 2);
    assert_eq!(listing(&state), vec![triple("payments", "node-b", 2)]);
}

#[test]
fn replicate_route_reports_what_it_did() {
    let mut state = node("node-b");
    match replicate_route(&mut state, update("payments", "node-a", 7)) {
        ReplicationReply::Applied { status, version } => {
            assert_eq!(status, "replicated");
            assert_eq!(version, 7);
        }
        _ => panic!("a new update is applied"),
    }
    match replicate_route(&mut state, update(" ", "node-a", 8)) {
        ReplicationReply::Rejected { error } => assert_eq!(error, "service cannot be empty"),
        _ => panic!("a blank service is rejected"),
    }
    match replicate_route(&mut state, update("payments", "node-z", 8)) {
        ReplicationReply::Rejected { error } => assert_eq!(error, "invalid target node"),
        _ => panic!("an unknown target is rejected"),
    }
    assert_eq!(listing(&state), vec![triple("payments", "node-a", 7)]);
}

#[test]
fn replicate_route_ignores_an_equal_version() {
    let mut state = node("node-b");
    replicate_route(&mut state, update("payments", "node-a", 3));
    let reply = replicate_route(&mut state, update("payments", "node-c", 3));
    match reply {
        ReplicationReply::Ignored { reason, current_version, received_version } => {
            assert_eq!(reason, "stale update");
            assert_eq!(current_version, 3);
            assert_eq!(received_version, 3);
        }
        _ => panic!("an update at the same version is stale"),
    }
    assert_eq!(listing(&state), vec![triple("payments", "node-a", 3)]);
}

#[test]
fn replicated_tombstone_blocks_older_writes() {
    let mut state = node("node-c");
    match replicate_delete(&mut state, deletion("payments", 3)) {
        ReplicationReply::Applied { status, version } => {
            assert_eq!(status, "deleted");
            assert_eq!(version, 3);
        }
        _ => panic!("a new deletion is applied"),
    }
    let reply = replicate_route(&mut state, update("payments", "node-a", 2));
    match reply {
        ReplicationReply::Ignored { reason, current_version, .. } => {
            assert_eq!(reason, "stale update");
            assert_eq!(current_version, 3);
        }
        _ => panic!("an older update cannot recreate a deleted route"),
    }
    assert!(listing(&state).is_empty());
    assert_eq!(full_state(&state), vec![("payments".to_string(), String::new(), 3, false)]);
    replicate_route(&mut state, update("payments", "node-a", 4));
    assert_eq!(listing(&state), vec![triple("payments", "node-a", 4)]);
}

#[test]
fn replicate_delete_rejects_a_blank_service() {
    let mut state = node("node-c");
    let reply = replicate_delete(&mut state, deletion("  ", 1));
    assert_eq!(reply.status_code(), 400);
    assert!(full_state(&state).is_empty());
}

#[test]
fn replicated_writes_commute() {
    let writes = [
        update("payments", "node-a", 2),
        update("payments", "node-b", 5),
        update("checkout", "node-c", 1),
    ];
    let mut forward = node("node-b");
    for w in writes.iter() {
        replicate_route(&mut forward, update(&w.service, &w.target, w.version));
    }
    replicate_delete(&mut forward, deletion("checkout", 4));
    let mut backward = node("node-c");
    replicate_delete(&mut backward, deletion("checkout", 4));
    for w in writes.iter().rev() {
        replicate_route(&mut backward, update(&w.service, &w.target, w.version));
    }
    assert_eq!(full_state(&forward), full_state(&backward));
    assert_eq!(listing(&forward), vec![triple("payments", "node-b", 5)]);
}

#[test]
fn replicated_writes_are_idempotent() {
    let mut state = node("node-b");
    replicate_route(&mut state, update("payments", "node-a", 2));
    let once = full_state(&state);
    let again = replicate_route(&mut state, update("payments", "node-a", 2));
    assert_eq!(again.status_code(), 200);
    assert_eq!(full_state(&state), once);
}

#[test]
fn delete_route_leaves_a_tombstone_at_the_new_version() {
    let mut state = node("node-a");
    create_route(
        &mut state,
        CreateRouteRequest { service: "payments".to_string(), target: "node-a".to_string() },
    )
    .ok()
    .unwrap();
    let deleted_update = delete_route(&mut state, &"payments".to_string());
    assert_eq!(delete_status(&deleted_update), 204);
    let d = deleted_update.unwrap();
    assert_eq!(d.service, "payments");
    assert_eq!(d.version, 2);
    assert!(listing(&state).is_empty());
    assert_eq!(full_state(&state), vec![("payments".to_string(), String::new(), 2, false)]);
    // The tombstone itself is older than the next version, so a second
    // deletion writes a newer tombstone.
    let again = delete_route(&mut state, &"payments".to_string());
    assert_eq!(again.unwrap().version, 3);
}

#[test]
fn delete_route_of_an_unknown_service_still_takes_a_version() {
    let mut state = node("node-a");
    assert_eq!(delete_status(&delete_route(&mut state, &"ghost".to_string())), 404);
    assert_eq!(state.version, 1);
    assert!(full_state(&state).is_empty());
}

#[test]
fn delete_route_of_a_newer_replicated_route_outranks_it() {
    let mut state = node("node-a");
    replicate_route(&mut state, update("payments", "node-b", 9));
    let result = delete_route(&mut state, &"payments".to_string());
    assert_eq!(delete_status(&result), 204);
    assert_eq!(result.unwrap().version, 10);
    assert_eq!(state.version, 10);
    assert!(listing(&state).is_empty());
    assert_eq!(full_state(&state), vec![("payments".to_string(), String::new(), 10, false)]);
}

#[test]
fn create_route_outranks_a_newer_replicated_route() {
    let mut state = node("node-a");
    replicate_route(&mut state, update("payments", "node-b", 7));
    let created = create_route(
        &mut state,
        CreateRouteRequest { service: "payments".to_string(), target: "node-c".to_string() },
    )
    .ok()
    .unwrap();
    assert_eq!(created.version, 8);
    assert_eq!(state.version, 8);
    assert_eq!(listing(&state), vec![triple("payments", "node-c", 8)]);
    // A peer that holds the replicated version takes the local write in.
    let mut peer = node("node-b");
    replicate_route(&mut peer, update("payments", "node-b", 7));
    let reply = replicate_route(&mut peer, created);
    assert_eq!(reply.status_code(), 200);
    assert_eq!(listing(&peer), vec![triple("payments", "node-c", 8)]);
    // Another service still gets the next counter value.
    let other = create_route(
        &mut state,
        CreateRouteRequest { service: "orders".to_string(), target: "node-a".to_string() },
    );
    assert_eq!(other.ok().unwrap().version, 9);
}

#[test]
fn latest_version_is_the_later_of_counter_and_held_version() {
    let mut state = node("node-a");
    assert_eq!(state.latest_version(&"payments".to_string()), 0);
    replicate_route(&mut state, update("payments", "node-b", 4));
    assert_eq!(state.latest_version(&"payments".to_string()), 4);
    state.next_version_above(0);
    assert_eq!(state.latest_version(&"orders".to_string()), 1);
    assert_eq!(state.next_version_above(4), 5);
    assert_eq!(state.next_version_above(2), 6);
}

#[test]
fn recovery_keeps_the_newest_state_of_each_service() {
    let mut state = node("node-b");
    replicate_route(&mut state, update("checkout", "node-a", 1));
    replicate_route(&mut state, update("orders", "node-c", 6));
    let remote = StateResponse {
        routes: vec![
            ("checkout".to_string(), deleted(4)),
            ("payments".to_string(), active("node-a", 3)),
            ("orders".to_string(), active("node-b", 5)),
        ],
    };
    let recovered = recover_from(&mut state, &remote);
    assert_eq!(recovered, 2);
    assert_eq!(
        full_state(&state),
        vec![
            ("checkout".to_string(), String::new(), 4, false),
            ("orders".to_string(), "node-c".to_string(), 6, true),
            ("payments".to_string(), "node-a".to_string(), 3, true),
        ]
    );
    assert_eq!(recover_from(&mut state, &remote), 0);
}

#[test]
fn merge_remote_routes_counts_installed_entries() {
    let mut table = RouteTable::new();
    let remote = vec![("a".to_string(), active("node-a", 1)), ("b".to_string(), deleted(2))];
    assert_eq!(merge_remote_routes(&mut table, &remote), 2);
    assert_eq!(table.len(), 2);
    let newer = vec![("a".to_string(), active("node-b", 1)), ("b".to_string(), active("node-c", 3))];
    assert_eq!(merge_remote_routes(&mut table, &newer), 1);
    let mut listed: Vec<(String, String, u64)> = active_routes(&table)
        .into_iter()
        .map(|(service, route)| (service, route.target, route.version))
        .collect();
    listed.sort();
    assert_eq!(listed, vec![triple("a", "node-a", 1), triple("b", "node-c", 3)]);
}

#[test]
fn only_node_a_skips_recovery() {
    assert!(!should_recover(&"node-a".to_string()));
    assert!(should_recover(&"node-b".to_string()));
    assert!(should_recover(&"node-c".to_string()));
}

#[test]
fn peers_are_the_other_nodes_with_their_urls() {
    let state = node("node-a");
    let urls: Vec<(String, String)> =
        replication_targets(&state).into_iter().map(|p| (p.id, p.url)).collect();
    assert_eq!(
        urls,
        vec![
            ("node-b".to_string(), "http://127.0.0.1:7101/internal/replicate".to_string()),
            ("node-c".to_string(), "http://127.0.0.1:7102/internal/replicate".to_string()),
        ]
    );
    let state_b = node("node-b");
    let deletes: Vec<String> =
        delete_replication_targets(&state_b).into_iter().map(|p| p.url).collect();
    assert_eq!(
        deletes,
        vec![
            "http://127.0.0.1:7100/internal/replicate-delete".to_string(),
            "http://127.0.0.1:7102/internal/replicate-delete".to_string(),
        ]
    );
    let checks: Vec<String> = health_check_targets(&state_b).into_iter().map(|p| p.url).collect();
    assert_eq!(checks, vec!["http://127.0.0.1:7100/health", "http://127.0.0.1:7102/health"]);
    let recovery: Vec<String> =
        recovery_targets(&state_b).into_iter().map(|p| p.id).collect();
    assert_eq!(recovery, vec!["node-a", "node-c"]);
    let outsider = peer_targets(&default_membership(), &"node-x".to_string(), "/x");
    assert_eq!(outsider.len(), 3);
}

#[test]
fn health_checks_change_only_the_checked_node() {
    let mut state = node("node-a");
    observe_health(&mut state, &"node-b".to_string(), false);
    let statuses: Vec<String> = get_nodes(&state).into_iter().map(|n| n.status).collect();
    assert_eq!(statuses, vec!["healthy", "unhealthy", "healthy"]);
    observe_health(&mut state, &"node-b".to_string(), true);
    let statuses: Vec<String> = get_nodes(&state).into_iter().map(|n| n.status).collect();
    assert_eq!(statuses, vec!["healthy", "healthy", "healthy"]);
    let mut nodes = default_membership();
    record_health(&mut nodes, &"node-z".to_string(), false);
    assert!(nodes.iter().all(|n| n.status == "healthy"));
}

#[test]
fn default_membership_is_the_local_cluster() {
    let nodes = get_nodes(&node("node-c"));
    let described: Vec<(String, String, String)> =
        nodes.into_iter().map(|n| (n.id, n.address, n.status)).collect();
    assert_eq!(
        described,
        vec![
            ("node-a".to_string(), "http://127.0.0.1:7100".to_string(), "healthy".to_string()),
            ("node-b".to_string(), "http://127.0.0.1:7101".to_string(), "healthy".to_string()),
            ("node-c".to_string(), "http://127.0.0.1:7102".to_string(), "healthy".to_string()),
        ]
    );
    assert_eq!(status_text(false), "unhealthy");
}

#[test]
fn known_nodes_are_exactly_the_three() {
    for name in ["node-a", "node-b", "node-c"] {
        assert!(known_node(&name.to_string()));
    }
    for name in ["node-d", "", "Node-a", " node-a"] {
        assert!(!known_node(&name.to_string()));
    }
}

#[test]
fn route_version_reads_either_state() {
    assert_eq!(route_version(&active("node-a", 4)), 4);
    assert_eq!(route_version(&deleted(9)), 9);
}

#[test]
fn receive_route_update_trusts_the_blank_flag() {
    let mut state = node("node-b");
    let reply = receive_route_update(&mut state, update("payments", "node-a", 1), true);
    assert_eq!(reply.status_code(), 400);
    assert!(full_state(&state).is_empty());
}

#[test]
fn route_table_insert_replaces_by_name() {
    let mut table = RouteTable::new();
    table.insert("a".to_string(), active("node-a", 1));
    table.insert("b".to_string(), active("node-b", 1));
    table.insert("a".to_string(), deleted(2));
    assert_eq!(table.len(), 2);
    assert!(table.get(&"c".to_string()).is_none());
    assert_eq!(route_version(table.get(&"a".to_string()).unwrap()), 2);
    assert_eq!(active_routes(&table).len(), 1);
}

#[test]
fn create_request_error_names_the_refusal() {
    assert!(create_request_error(&"payments".to_string(), &"node-b".to_string()).is_none());
    assert_eq!(
        create_request_error(&String::new(), &"node-x".to_string()).unwrap().error,
        "service cannot be empty"
    );
    assert_eq!(
        create_request_error(&"payments".to_string(), &"node-x".to_string()).unwrap().error,
        "unknown target node"
    );
}

#[test]
fn refused_creation_needs_no_version_left() {
    let mut state = node("node-a");
    state.version = u64::MAX;
    let result = create_route(
        &mut state,
        CreateRouteRequest { service: " ".to_string(), target: "node-a".to_string() },
    );
    assert_eq!(create_status(&result), 400);
    assert_eq!(state.version, u64::MAX);
}

#[test]
fn trim_removes_every_unicode_white_space_character() {
    let all = "\u{9}\u{a}\u{b}\u{c}\u{d}\u{20}\u{85}\u{a0}\u{1680}\u{2000}\u{2005}\u{200a}\u{2028}\u{2029}\u{202f}\u{205f}\u{3000}";
    let padded = format!("{all}x y{all}");
    assert_eq!(trim_service(&padded), "x y");
    assert!(service_is_blank(&all.to_string()));
    assert_eq!(trim_service(&"\u{200b}x".to_string()), "\u{200b}x");
}
