use rust_distributed_routing::api::health;
use rust_distributed_routing::replication::{
    replicate_delete, replicate_route, DeleteUpdate, ReplicationReply, RouteUpdate,
};
use rust_distributed_routing::routing::{
    create_route, create_status, delete_route, delete_status, get_routes, CreateRouteRequest,
};
use rust_distributed_routing::state::AppState;

fn app() -> AppState {
    AppState::new("node-a".to_string())
}

fn route_update(service: &str, target: &str, version: u64) -> RouteUpdate {
    RouteUpdate { service: service.to_string(), target: target.to_string(), version }
}

fn create_request(service: &str, target: &str) -> CreateRouteRequest {
    CreateRouteRequest { service: service.to_string(), target: target.to_string() }
}

#[test]
fn health_returns_healthy() {
    let state = app();
    let response = health(&state);
    assert_eq!(response.status, "healthy");
    assert_eq!(response.node, "node-a");
}

#[test]
fn create_route_returns_created() {
    let mut state = app();
    let result = create_route(&mut state, create_request("payments", "node-a"));
    assert_eq!(create_status(&result), 201);
}

#[test]
fn create_route_rejects_empty_service() {
    let mut state = app();
    let result = create_route(&mut state, create_request("", "node-a"));
    assert_eq!(create_status(&result), 400);
}

#[test]
fn create_route_rejects_invalid_target() {
    let mut state = app();
    let result = create_route(&mut state, create_request("payments", "node-x"));
    assert_eq!(create_status(&result), 400);
}

#[test]
fn delete_missing_route_returns_not_found() {
    let mut state = app();
    let result = delete_route(&mut state, &"payments".to_string());
    assert_eq!(delete_status(&result), 404);
}

#[test]
fn replication_accepts_route_update() {
    let mut state = app();
    let reply = replicate_route(&mut state, route_update("payments", "node-a", 1));
    assert_eq!(reply.status_code(), 200);
}

#[test]
fn replication_ignores_stale_update() {
    let mut state = app();
    let first = replicate_route(&mut state, route_update("payments", "node-b", 2));
    assert_eq!(first.status_code(), 200);

    let second = replicate_route(&mut state, route_update("payments", "node-a", 1));
    assert_eq!(second.status_code(), 200);
    match second {
        ReplicationReply::Ignored { reason, current_version, received_version } => {
            assert!(reason.contains("stale update"));
            assert_eq!(current_version, 2);
            assert_eq!(received_version, 1);
        }
        _ => panic!("a stale update must be ignored"),
    }
}

#[test]
fn replication_rejects_invalid_target() {
    let mut state = app();
    let reply = replicate_route(&mut state, route_update("payments", "node-x", 1));
    assert_eq!(reply.status_code(), 400);
}

#[test]
fn replication_delete_removes_route() {
    let mut state = app();
    let create = replicate_route(&mut state, route_update("payments", "node-a", 1));
    assert_eq!(create.status_code(), 200);

    let delete = replicate_delete(
        &mut state,
        DeleteUpdate { service: "payments".to_string(), version: 2 },
    );
    assert_eq!(delete.status_code(), 200);

    let routes = get_routes(&state);
    assert!(!routes.routes.iter().any(|(service, _)| service.contains("payments")));
}

#[test]
fn replication_delete_ignores_stale_delete() {
    let mut state = app();
    let create = replicate_route(&mut state, route_update("payments", "node-b", 5));
    assert_eq!(create.status_code(), 200);

    let delete = replicate_delete(
        &mut state,
        DeleteUpdate { service: "payments".to_string(), version: 4 },
    );
    assert_eq!(delete.status_code(), 200);
    match delete {
        ReplicationReply::Ignored { reason, current_version, received_version } => {
            assert!(reason.contains("stale delete"));
            assert_eq!(current_version, 5);
            assert_eq!(received_version, 4);
        }
        _ => panic!("a stale delete must be ignored"),
    }
}
