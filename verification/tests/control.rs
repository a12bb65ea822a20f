use hyper::header::{
    HeaderMap, HeaderName, HeaderValue, AUTHORIZATION, CONNECTION, HOST, TRANSFER_ENCODING,
};
use ongrok::api::{
    authenticate, capabilities, check_service_body, check_token_body, create_defined,
    create_service, find_route, finish_creation, finish_token_change, handle_request, mutate_token,
    server_name, ApiFault, ApiStep, Method, Route, ServiceCreateRequest, TokenMutation,
    MAX_API_BODY_BYTES,
};
use ongrok::headers::{
    has_few_fields, header_text, set_host, strip_hop_by_hop_headers, HostError, SURE_NAMES,
};
use ongrok::ids::{id_text, NodeId, ServiceId, TunnelId};
use ongrok::ingress::{
    forwarded_host, host_name, ingress_failure, origin_target, prepare_request_headers,
    select_service, IngressError,
};
use ongrok::metadata::Metadata;
use ongrok::model::{
    NodeMetadata, NodeRecord, NodeStatus, Protocol, ServiceDefinition, ServiceStatus, TokenKind,
    TransportKind,
};
use ongrok::relay::register_service;
use ongrok::state::{activate_session, AppState};
use ongrok::token::{hash_token, TokenState};
use std::collections::BTreeMap;

fn test_state() -> AppState {
    AppState::new(
        TokenState {
            admin_hash: Some(hash_token("admin")),
            user_hash: Some(hash_token("user")),
        },
        BTreeMap::new(),
        BTreeMap::new(),
        "localhost".to_owned(),
        Some("relay.test".to_owned()),
        20_000,
        30_000,
    )
}

fn add_node(state: &mut AppState, node_id: NodeId, status: NodeStatus) {
    state.nodes.insert(
        node_id.0,
        NodeRecord {
            node_id,
            public_key: None,
            metadata: NodeMetadata {
                hostname: "test".into(),
                os: "test".into(),
                arch: "test".into(),
                client_version: "test".into(),
                metadata: Metadata::default(),
            },
            public_ip: "127.0.0.1".into(),
            source_port: 1234,
            transport: TransportKind::Quic,
            status,
            connected_at_unix_ms: 0,
            last_heartbeat_at_unix_ms: Some(77),
            rtt_ms: Some(12),
        },
    );
}

fn definition(name: &str, node_id: NodeId, protocol: Protocol) -> ServiceDefinition {
    ServiceDefinition {
        service_id: ServiceId::new(),
        service_name: name.into(),
        node_id,
        protocol,
        local_address: "127.0.0.1:22".into(),
        public_host: None,
        public_port: None,
        metadata: Metadata::default(),
    }
}

fn bearer(token: &str) -> HeaderMap {
    let mut headers = HeaderMap::new();
    let value = format!("Bearer {token}");
    headers.insert(AUTHORIZATION, value.parse().unwrap());
    headers
}

#[test]
fn bearer_authentication_distinguishes_kinds() {
    let state = test_state();
    let mut headers = HeaderMap::new();
    headers.insert(AUTHORIZATION, "Bearer user".parse().unwrap());
    assert_eq!(authenticate(&headers, &state), Some(TokenKind::User));
    headers.insert(AUTHORIZATION, "Bearer invalid".parse().unwrap());
    assert_eq!(authenticate(&headers, &state), None);
}

#[test]
fn bearer_tokens_need_the_exact_form() {
    let state = test_state();
    assert_eq!(authenticate(&bearer("admin"), &state), Some(TokenKind::Admin));
    assert_eq!(authenticate(&HeaderMap::new(), &state), None);
    let mut headers = HeaderMap::new();
    for value in ["admin", "bearer admin", "Bearer  admin", "Bearer admin "] {
        headers.insert(AUTHORIZATION, value.parse().unwrap());
        assert_eq!(authenticate(&headers, &state), None, "{value}");
    }
    headers.insert(
        AUTHORIZATION,
        HeaderValue::from_bytes(b"Bearer \xfc").unwrap(),
    );
    assert_eq!(authenticate(&headers, &state), None);
    let mut twice = bearer("admin");
    twice.append(AUTHORIZATION, "Bearer user".parse().unwrap());
    assert_eq!(authenticate(&twice, &state), Some(TokenKind::Admin));
}

#[test]
fn strips_standard_and_connection_declared_headers() {
    let mut headers = HeaderMap::new();
    headers.insert(
        CONNECTION,
        HeaderValue::from_static("x-tunnel-hop, keep-alive"),
    );
    headers.insert("x-tunnel-hop", HeaderValue::from_static("secret"));
    headers.insert("keep-alive", HeaderValue::from_static("timeout=5"));
    headers.insert("x-end-to-end", HeaderValue::from_static("kept"));
    strip_hop_by_hop_headers(&mut headers);
    assert!(!headers.contains_key(CONNECTION));
    assert!(!headers.contains_key(HeaderName::from_static("x-tunnel-hop")));
    assert!(!headers.contains_key(HeaderName::from_static("keep-alive")));
    assert_eq!(headers["x-end-to-end"], "kept");
}

#[test]
fn connection_lists_are_read_in_every_form() {
    let mut headers = HeaderMap::new();
    headers.append(CONNECTION, HeaderValue::from_static(" X-One ,,\tx-two"));
    headers.append(CONNECTION, HeaderValue::from_static("bad name,x-three"));
    headers.append(
        CONNECTION,
        HeaderValue::from_bytes(b"x-four, \xff").unwrap(),
    );
    for name in ["x-one", "x-two", "x-three", "x-four", "x-five"] {
        headers.append(
            HeaderName::from_static(name),
            HeaderValue::from_static("1"),
        );
        headers.append(
            HeaderName::from_static(name),
            HeaderValue::from_static("2"),
        );
    }
    for name in [
        "proxy-authenticate",
        "proxy-authorization",
        "te",
        "trailer",
        "upgrade",
    ] {
        headers.append(
            HeaderName::from_static(name),
            HeaderValue::from_static("x"),
        );
    }
    headers.insert(TRANSFER_ENCODING, HeaderValue::from_static("chunked"));
    strip_hop_by_hop_headers(&mut headers);
    let left: Vec<&str> = headers.keys().map(|name| name.as_str()).collect();
    assert_eq!(left.len(), 2);
    assert!(left.contains(&"x-four") && left.contains(&"x-five"));
    assert_eq!(headers.get_all("x-five").iter().count(), 2);
    let before = headers.clone();
    strip_hop_by_hop_headers(&mut headers);
    assert_eq!(headers, before);
}

#[test]
fn host_fields_are_set_and_read() {
    let mut headers = HeaderMap::new();
    assert_eq!(header_text(&headers, "host"), None);
    headers.append(HOST, HeaderValue::from_static("one.test"));
    headers.append(HOST, HeaderValue::from_static("two.test"));
    assert_eq!(header_text(&headers, "host"), Some("one.test".into()));
    assert_eq!(set_host(&mut headers, "three.test"), Ok(()));
    assert_eq!(headers.get_all(HOST).iter().count(), 1);
    assert_eq!(headers[HOST], "three.test");
    assert_eq!(set_host(&mut headers, "a\nb"), Err(HostError::Invalid));
    assert_eq!(headers[HOST], "three.test");
    assert_eq!(header_text(&headers, "HoSt"), Some("three.test".into()));
    assert_eq!(header_text(&headers, "no name"), None);
}

#[test]
fn fields_with_a_quotation_mark_in_their_name_are_passed_on() {
    let mut headers = HeaderMap::new();
    let odd = HeaderName::from_lowercase(b"a\"b").unwrap();
    headers.insert(odd.clone(), HeaderValue::from_static("odd"));
    headers.insert(CONNECTION, HeaderValue::from_static("a\"b, close"));
    assert_eq!(header_text(&headers, "a\"b"), None);
    strip_hop_by_hop_headers(&mut headers);
    assert_eq!(headers.len(), 1);
    assert_eq!(headers[odd], "odd");
    assert!(has_few_fields(&headers));
}

#[test]
fn a_host_finds_room_among_few_fields() {
    for capacity in [0, 8_192, 24_576] {
        let mut headers = HeaderMap::with_capacity(capacity);
        for i in 0..SURE_NAMES {
            let name = HeaderName::from_bytes(format!("x-{i}").as_bytes()).unwrap();
            headers.append(name.clone(), HeaderValue::from_static("a"));
            headers.append(name, HeaderValue::from_static("b"));
        }
        assert_eq!(SURE_NAMES, 6553);
        assert!(has_few_fields(&headers));
        assert_eq!(set_host(&mut headers, "web.relay.test"), Ok(()));
        assert_eq!(headers[HOST], "web.relay.test");
        assert!(!has_few_fields(&headers));
    }
    let mut full: HeaderMap = HeaderMap::with_capacity(24_576);
    for i in 0..24_576 {
        let name = HeaderName::from_bytes(format!("x-{i}").as_bytes()).unwrap();
        full.append(name, HeaderValue::from_static("a"));
    }
    assert_eq!(set_host(&mut full, "web.relay.test"), Err(HostError::NoRoom));
    assert_eq!(
        prepare_request_headers(&mut full, "web.relay.test"),
        Err(IngressError::TooManyHeaders)
    );
    assert_eq!(full.len(), 24_576);
}

#[test]
fn host_names_are_put_into_plain_form() {
    for (forwarded, host) in [
        ("web.relay.test", "web.relay.test"),
        ("WEB.Relay.Test", "web.relay.test"),
        ("web.relay.test.", "web.relay.test"),
        ("web.relay.test...", "web.relay.test"),
        ("web.relay.test:8080", "web.relay.test"),
        ("web.relay.test.:80", "web.relay.test."),
        ("[::1]:80", "["),
        ("", ""),
    ] {
        assert_eq!(host_name(forwarded), host);
    }
}

#[test]
fn requests_are_selected_by_host_and_protocol() {
    let mut state = test_state();
    let node = NodeId::new();
    let id = register_service(&mut state, definition("web", node, Protocol::Http), node)
        .unwrap()
        .service_id;
    let mut headers = HeaderMap::new();
    assert_eq!(
        select_service(&headers, None, Protocol::Http, &state),
        Err(IngressError::MissingHost)
    );
    assert_eq!(
        select_service(
            &headers,
            Some("Web.relay.test:80".into()),
            Protocol::Http,
            &state
        ),
        Ok((id, "Web.relay.test:80".into()))
    );
    headers.insert(HOST, HeaderValue::from_static("web.relay.test"));
    assert_eq!(
        forwarded_host(&headers, Some("other".into())),
        Some("web.relay.test".into())
    );
    assert_eq!(
        select_service(&headers, None, Protocol::Http, &state),
        Ok((id, "web.relay.test".into()))
    );
    assert_eq!(
        select_service(&headers, None, Protocol::Https, &state),
        Err(IngressError::NoService)
    );
    for (error, text) in [
        (
            IngressError::MissingHost,
            "HTTP request is missing a Host header",
        ),
        (
            IngressError::NoService,
            "no HTTP service is registered for host",
        ),
        (IngressError::InvalidHost, "invalid HTTP host"),
        (IngressError::TooManyHeaders, "too many HTTP headers"),
    ] {
        assert_eq!(error.message(), text);
    }
    assert_eq!(ingress_failure(), (502, "service is unavailable"));
}

#[test]
fn requests_are_prepared_for_the_local_service() {
    let mut headers = HeaderMap::new();
    headers.insert(CONNECTION, HeaderValue::from_static("close"));
    headers.insert("accept", HeaderValue::from_static("*/*"));
    assert_eq!(
        prepare_request_headers(&mut headers, "web.relay.test"),
        Ok(())
    );
    assert_eq!(headers[HOST], "web.relay.test");
    assert_eq!(headers.len(), 2);
    assert_eq!(
        prepare_request_headers(&mut headers, "\u{7f}"),
        Err(IngressError::InvalidHost)
    );
    assert_eq!(headers.len(), 2);
    assert_eq!(origin_target(None), "/");
    assert_eq!(origin_target(Some("/a?b=c".into())), "/a?b=c");
}

#[test]
fn paths_and_methods_make_routes() {
    assert!(matches!(
        find_route(Method::Post, "/v1/admin/tokens/rotate"),
        Route::MutateToken(TokenMutation::Rotate)
    ));
    assert!(matches!(
        find_route(Method::Post, "/v1/admin/tokens/revoke"),
        Route::MutateToken(TokenMutation::Revoke)
    ));
    assert!(matches!(
        find_route(Method::Get, "/v1/nodes"),
        Route::Nodes
    ));
    assert!(
        matches!(find_route(Method::Get, "/v1/nodes/abc"), Route::Node(key) if key == "abc")
    );
    assert!(matches!(
        find_route(Method::Get, "/v1/nodes/abc/metrics"),
        Route::NodeMetrics(key) if key == "abc"
    ));
    assert!(matches!(
        find_route(Method::Post, "/v1/services"),
        Route::CreateService
    ));
    for method in [Method::Get, Method::Post, Method::Delete, Method::Other] {
        assert!(matches!(
            find_route(method, "/v1/services/x"),
            Route::Service(key) if key == "x"
        ));
    }
    assert!(matches!(find_route(Method::Get, "/healthz"), Route::Health));
    assert!(matches!(find_route(Method::Get, "/readyz"), Route::Health));
    assert!(matches!(
        find_route(Method::Post, "/v1/auth/validate"),
        Route::ValidateToken
    ));
    assert!(matches!(
        find_route(Method::Get, "/v1/services"),
        Route::Services
    ));
    assert!(matches!(
        find_route(Method::Get, "/v1/events"),
        Route::Events
    ));
    for (method, path) in [
        (Method::Get, "/"),
        (Method::Post, "/healthz"),
        (Method::Delete, "/v1/services"),
        (Method::Post, "/v1/nodes"),
        (Method::Get, "/v1/admin/tokens/rotate"),
    ] {
        assert!(matches!(find_route(method, path), Route::Unknown));
    }
}

fn fault(step: ApiStep) -> ApiFault {
    match step {
        ApiStep::Refused(fault) => fault,
        _ => panic!("the request is refused"),
    }
}

#[test]
fn the_api_needs_a_token_in_force() {
    let mut state = test_state();
    let none = HeaderMap::new();
    let id = id_text(ServiceId::new().0);
    let service_path = format!("/v1/services/{id}");
    for (method, path) in [
        (Method::Get, "/v1/nodes"),
        (Method::Get, "/v1/nodes/abc"),
        (Method::Get, "/v1/nodes/abc/metrics"),
        (Method::Post, "/v1/services"),
        (Method::Get, "/v1/services"),
        (Method::Get, "/v1/events"),
        (Method::Post, "/v1/auth/validate"),
        (Method::Get, service_path.as_str()),
        (Method::Delete, service_path.as_str()),
    ] {
        let step = handle_request(method, path, &none, &mut state);
        assert_eq!(fault(step), ApiFault::InvalidBearer, "{path}");
    }
    for headers in [none.clone(), bearer("user")] {
        let step = handle_request(
            Method::Post,
            "/v1/admin/tokens/rotate",
            &headers,
            &mut state,
        );
        assert_eq!(fault(step), ApiFault::AdminRequired);
    }
    assert!(matches!(
        handle_request(Method::Get, "/healthz", &none, &mut state),
        ApiStep::Health
    ));
    assert_eq!(
        fault(handle_request(
            Method::Get,
            "/v1/services/x",
            &none,
            &mut state
        )),
        ApiFault::InvalidServiceId
    );
    assert_eq!(
        fault(handle_request(Method::Get, "/nowhere", &none, &mut state)),
        ApiFault::RouteNotFound
    );
    assert!(matches!(
        handle_request(
            Method::Post,
            "/v1/admin/tokens/revoke",
            &bearer("admin"),
            &mut state
        ),
        ApiStep::ReadTokenMutation(TokenMutation::Revoke)
    ));
}

#[test]
fn tokens_tell_what_their_bearer_may_do() {
    let mut state = test_state();
    for (token, kind) in [("admin", TokenKind::Admin), ("user", TokenKind::User)] {
        assert!(matches!(
            handle_request(
                Method::Post,
                "/v1/auth/validate",
                &bearer(token),
                &mut state
            ),
            ApiStep::Token(found) if found == kind
        ));
    }
    assert_eq!(
        capabilities(TokenKind::Admin),
        [
            "services:read",
            "services:write",
            "nodes:read",
            "tokens:write"
        ]
    );
    assert_eq!(
        capabilities(TokenKind::User),
        ["services:read", "services:write", "nodes:read"]
    );
    assert_eq!(server_name(), "ongrok");
}

#[test]
fn nodes_are_listed_and_found_by_their_identifier() {
    let mut state = test_state();
    let (a, b) = (NodeId(2), NodeId(1));
    add_node(&mut state, a, NodeStatus::Online);
    add_node(&mut state, b, NodeStatus::Offline);
    let user = bearer("user");
    let ApiStep::Nodes(nodes) = handle_request(Method::Get, "/v1/nodes", &user, &mut state) else {
        panic!("nodes are listed");
    };
    assert_eq!(
        nodes.iter().map(|n| n.node_id).collect::<Vec<_>>(),
        [b, a]
    );
    let path = format!("/v1/nodes/{}", id_text(a.0));
    assert!(matches!(
        handle_request(Method::Get, &path, &user, &mut state),
        ApiStep::Node(node) if node.node_id == a
    ));
    let metrics = format!("{path}/metrics");
    assert!(matches!(
        handle_request(Method::Get, &metrics, &user, &mut state),
        ApiStep::Metrics(node_id) if node_id == a
    ));
    assert_eq!(
        fault(handle_request(
            Method::Get,
            "/v1/nodes/nobody/metrics",
            &user,
            &mut state
        )),
        ApiFault::NodeNotFound
    );
    assert!(matches!(
        handle_request(Method::Get, "/v1/events", &user, &mut state),
        ApiStep::Events
    ));
}

fn create_request(node_id: NodeId) -> ServiceCreateRequest {
    ServiceCreateRequest {
        service_name: "ssh".into(),
        node_id,
        protocol: Protocol::Tcp,
        local_address: "127.0.0.1:22".into(),
        public_port: Some(22_001),
        metadata: Metadata::default(),
    }
}

#[test]
fn services_are_created_read_and_deleted() {
    let mut state = test_state();
    let (online, offline) = (NodeId::new(), NodeId::new());
    add_node(&mut state, online, NodeStatus::Online);
    add_node(&mut state, offline, NodeStatus::Offline);
    let user = bearer("user");
    assert!(matches!(
        handle_request(Method::Post, "/v1/services", &user, &mut state),
        ApiStep::ReadService
    ));
    assert_eq!(
        create_service(None, &mut state),
        Err(ApiFault::InvalidServiceRequest)
    );
    assert_eq!(
        create_service(Some(create_request(NodeId::new())), &mut state),
        Err(ApiFault::NodeNotFound)
    );
    assert_eq!(
        create_service(Some(create_request(offline)), &mut state),
        Err(ApiFault::NodeOffline)
    );
    let published = create_service(Some(create_request(online)), &mut state).unwrap();
    assert_eq!(published.public_port, Some(22_001));
    assert_eq!(published.public_host.as_deref(), Some("localhost"));
    assert_eq!(
        create_defined(definition("Bad", online, Protocol::Tcp), &mut state),
        Err(ApiFault::ServiceRejected)
    );

    let path = format!("/v1/services/{}", id_text(published.service_id.0));
    let ApiStep::Service(view) = handle_request(Method::Get, &path, &user, &mut state) else {
        panic!("the service is read");
    };
    assert_eq!(view.service, published);
    assert_eq!(view.status, ServiceStatus::Online);
    assert_eq!(view.transport, Some(TransportKind::Quic));
    assert_eq!(view.last_heartbeat_at_unix_ms, Some(77));
    assert_eq!(view.rtt_ms, Some(12));

    state.nodes.remove(&online.0);
    let ApiStep::Services(list) =
        handle_request(Method::Get, "/v1/services", &user, &mut state)
    else {
        panic!("services are listed");
    };
    assert_eq!(list.len(), 1);
    assert_eq!(list[0].status, ServiceStatus::Offline);
    assert_eq!(list[0].transport, None);

    assert_eq!(
        fault(handle_request(Method::Other, &path, &user, &mut state)),
        ApiFault::RouteNotFound
    );
    assert!(matches!(
        handle_request(Method::Delete, &path, &user, &mut state),
        ApiStep::ServiceDeleted(id) if id == published.service_id
    ));
    for method in [Method::Get, Method::Delete] {
        assert_eq!(
            fault(handle_request(method, &path, &user, &mut state)),
            ApiFault::ServiceNotFound
        );
    }
}

#[test]
fn create_requests_become_definitions() {
    let node = NodeId::new();
    let made = create_request(node).into_definition();
    assert_eq!(made.service_name, "ssh");
    assert_eq!(made.node_id, node);
    assert_eq!(made.public_host, None);
    assert_eq!(made.public_port, Some(22_001));
    assert_ne!(
        made.service_id,
        create_request(node).into_definition().service_id
    );
}

#[test]
fn request_bodies_are_bounded() {
    assert_eq!(MAX_API_BODY_BYTES, 16 * 1024);
    assert_eq!(check_service_body(Some(MAX_API_BODY_BYTES)), Ok(()));
    assert_eq!(
        check_service_body(Some(MAX_API_BODY_BYTES + 1)),
        Err(ApiFault::ServiceRequestTooLarge)
    );
    assert_eq!(
        check_service_body(None),
        Err(ApiFault::InvalidServiceRequest)
    );
    assert_eq!(check_token_body(Some(0)), Ok(()));
    assert_eq!(
        check_token_body(Some(MAX_API_BODY_BYTES + 1)),
        Err(ApiFault::InvalidTokenMutation)
    );
    assert_eq!(check_token_body(None), Err(ApiFault::InvalidTokenMutation));
}

#[test]
fn token_changes_are_prepared() {
    let state = test_state();
    assert_eq!(
        mutate_token(TokenMutation::Rotate, None, &state).err(),
        Some(ApiFault::InvalidTokenMutation)
    );
    let rotation = mutate_token(TokenMutation::Rotate, Some(TokenKind::User), &state).unwrap();
    let token = rotation.token.expect("a rotation makes a token");
    assert!(token.starts_with("ongrok_user_"));
    assert_eq!(rotation.hash, Some(hash_token(&token)));
    assert_eq!(rotation.tokens.user_hash, rotation.hash);
    assert_eq!(rotation.tokens.admin_hash, state.tokens.admin_hash);
    assert_eq!(rotation.failure, ApiFault::RotationFailed);
    let revocation = mutate_token(TokenMutation::Revoke, Some(TokenKind::Admin), &state).unwrap();
    assert_eq!(revocation.token, None);
    assert_eq!(revocation.tokens.admin_hash, None);
    assert_eq!(revocation.tokens.user_hash, state.tokens.user_hash);
    assert_eq!(revocation.failure, ApiFault::RevocationFailed);
}

#[test]
fn token_changes_wait_for_the_store() {
    let mut state = test_state();
    let node = NodeId(7);
    add_node(&mut state, node, NodeStatus::Online);
    activate_session(node, TunnelId::new(), TokenKind::User, 3, &mut state);
    let revocation = mutate_token(TokenMutation::Revoke, Some(TokenKind::User), &state).unwrap();
    let before = state.tokens;
    assert_eq!(
        finish_token_change(&revocation, false, &mut state).err(),
        Some(ApiFault::RevocationFailed)
    );
    assert_eq!(state.tokens, before);
    assert_eq!(state.sessions.len(), 1);
    assert_eq!(state.nodes[&node.0].status, NodeStatus::Online);
    let cut = finish_token_change(&revocation, true, &mut state).unwrap();
    assert_eq!(cut.len(), 1);
    assert_eq!(cut[0].connection, 3);
    assert_eq!(state.tokens, revocation.tokens);
    assert!(state.sessions.is_empty());
    assert_eq!(state.nodes[&node.0].status, NodeStatus::Offline);
    let rotation = mutate_token(TokenMutation::Rotate, Some(TokenKind::Admin), &state).unwrap();
    assert_eq!(
        finish_token_change(&rotation, false, &mut state).err(),
        Some(ApiFault::RotationFailed)
    );
    assert!(finish_token_change(&rotation, true, &mut state).unwrap().is_empty());
    assert_eq!(state.tokens.admin_hash, rotation.hash);
}

#[test]
fn created_services_need_a_listener() {
    let mut state = test_state();
    let node = NodeId::new();
    add_node(&mut state, node, NodeStatus::Online);
    let made = create_service(Some(create_request(node)), &mut state).unwrap();
    let id = made.service_id;
    let made = finish_creation(made, true, &mut state).unwrap();
    assert_eq!(made.service_id, id);
    assert!(state.services.contains_key(&id.0));
    assert_eq!(
        finish_creation(made, false, &mut state).err(),
        Some(ApiFault::ServiceRejected)
    );
    assert!(state.services.is_empty());
}

#[test]
fn refusals_have_a_status_and_a_text() {
    for (fault, status, text) in [
        (ApiFault::AdminRequired, 401, "admin bearer token required"),
        (ApiFault::InvalidBearer, 401, "invalid bearer token"),
        (
            ApiFault::InvalidTokenMutation,
            400,
            "invalid token mutation request",
        ),
        (ApiFault::RotationFailed, 500, "failed to rotate token"),
        (ApiFault::RevocationFailed, 500, "failed to revoke token"),
        (ApiFault::NodeNotFound, 404, "node not found"),
        (ApiFault::MetricsFailed, 500, "failed to load node metrics"),
        (ApiFault::EventsFailed, 500, "failed to load events"),
        (
            ApiFault::InvalidServiceRequest,
            400,
            "invalid service request",
        ),
        (
            ApiFault::ServiceRequestTooLarge,
            413,
            "service request is too large",
        ),
        (ApiFault::NodeOffline, 409, "node is offline"),
        (
            ApiFault::ServiceRejected,
            400,
            "service could not be created",
        ),
        (ApiFault::InvalidServiceId, 400, "invalid service id"),
        (ApiFault::ServiceNotFound, 404, "service not found"),
        (ApiFault::DeletionFailed, 500, "failed to delete service"),
        (ApiFault::RouteNotFound, 404, "route not found"),
    ] {
        assert_eq!(fault.status(), status);
        assert_eq!(fault.message(), text);
    }
}
