use onesync::graph::error::{map_to_port, GraphError, GraphInternalError};

fn req() -> String {
    "req-123".to_owned()
}

#[test]
fn unauthorized_maps() {
    assert!(matches!(
        map_to_port(GraphInternalError::Unauthorized { request_id: req() }),
        GraphError::Unauthorized
    ));
}

#[test]
fn re_auth_maps() {
    assert!(matches!(
        map_to_port(GraphInternalError::ReAuthRequired { request_id: req() }),
        GraphError::ReAuthRequired
    ));
}

#[test]
fn throttled_maps_retry_after() {
    let ge = map_to_port(GraphInternalError::Throttled { retry_after_s: 42, request_id: req() });
    assert!(matches!(ge, GraphError::Throttled { retry_after_s: 42 }));
}

#[test]
fn stale_carries_etag() {
    let ge = map_to_port(GraphInternalError::Stale {
        server_etag: "etag-abc".to_owned(),
        request_id: req(),
    });
    assert!(matches!(ge, GraphError::Stale { server_etag } if server_etag == "etag-abc"));
}

#[test]
fn hash_mismatch_maps() {
    assert!(matches!(map_to_port(GraphInternalError::HashMismatch), GraphError::HashMismatch));
}

#[test]
fn too_large_maps() {
    assert!(matches!(map_to_port(GraphInternalError::TooLarge), GraphError::TooLarge));
}

#[test]
fn network_maps() {
    let ge = map_to_port(GraphInternalError::Network { detail: "connection refused".to_owned() });
    assert!(matches!(ge, GraphError::Network { .. }));
}

#[test]
fn decode_maps() {
    let ge = map_to_port(GraphInternalError::Decode { detail: "missing field".to_owned() });
    assert!(matches!(ge, GraphError::Decode { .. }));
}

#[test]
fn resync_required_maps() {
    assert!(matches!(
        map_to_port(GraphInternalError::ResyncRequired { request_id: req() }),
        GraphError::ResyncRequired
    ));
}

#[test]
fn forbidden_maps() {
    assert!(matches!(
        map_to_port(GraphInternalError::Forbidden { request_id: req() }),
        GraphError::Forbidden
    ));
}

#[test]
fn not_found_maps() {
    assert!(matches!(
        map_to_port(GraphInternalError::NotFound { request_id: req() }),
        GraphError::NotFound
    ));
}

#[test]
fn name_conflict_maps() {
    assert!(matches!(
        map_to_port(GraphInternalError::NameConflict { request_id: req() }),
        GraphError::NameConflict
    ));
}

#[test]
fn invalid_range_maps() {
    assert!(matches!(
        map_to_port(GraphInternalError::InvalidRange { request_id: req() }),
        GraphError::InvalidRange
    ));
}

#[test]
fn timeout_maps_to_transient() {
    assert!(matches!(map_to_port(GraphInternalError::Timeout), GraphError::Transient(_)));
}

#[test]
fn invalid_argument_maps_to_transient() {
    assert!(matches!(
        map_to_port(GraphInternalError::InvalidArgument { detail: "too big".to_owned() }),
        GraphError::Transient(_)
    ));
}

#[test]
fn transient_details_of_timeout_and_invalid_argument() {
    match map_to_port(GraphInternalError::Timeout) {
        GraphError::Transient(d) => assert_eq!(d, "auth listener timeout"),
        other => panic!("unexpected {other:?}"),
    }
    match map_to_port(GraphInternalError::InvalidArgument { detail: "too big".to_owned() }) {
        GraphError::Transient(d) => assert_eq!(d, "invalid argument: too big"),
        other => panic!("unexpected {other:?}"),
    }
}
