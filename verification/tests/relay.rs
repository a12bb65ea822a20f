use ongrok::client::{ClientSession, ClientStep};
use ongrok::codec::PROTOCOL_VERSION;
use ongrok::frame::Frame;
use ongrok::ids::{NodeId, ServiceId, TunnelId};
use ongrok::metadata::{Metadata, ValidationError};
use ongrok::model::{
    HeartbeatSnapshot, NodeMetadata, NodeRecord, NodeStatus, Protocol, ServiceDefinition,
    TokenKind, TransportKind,
};
use ongrok::relay::{
    ensure_tcp_ingress, find_service_at_host, first_available_tcp_port, ingress_started,
    ingress_stopped, persisted_tcp_services, register_service, route_to_service,
    settle_publication, unregister_service, IngressAction, RegisterError, RouteError,
};
use ongrok::session::{
    authenticate_token, finish_publication, heartbeat_ack, publish_reply, record_heartbeat,
    round_trip_ms, ServerSession, SessionError, SessionPhase, SessionStep,
};
use ongrok::state::{
    activate_session, end_session, replace_token, validate_node_identity, AppState,
};
use ongrok::stream::{
    check_stream_ack, find_local_target, request_stream, stream_answer, AckError,
    DataStreamError, LocalConnection,
};
use ongrok::token::{hash_token, TokenState};
use std::collections::BTreeMap;

fn state() -> AppState {
    AppState::new(
        TokenState {
            admin_hash: Some(hash_token("admin")),
            user_hash: Some(hash_token("user")),
        },
        BTreeMap::new(),
        BTreeMap::new(),
        "localhost".to_owned(),
        Some("relay.test".to_owned()),
        20_000,
        20_002,
    )
}

fn node_metadata() -> NodeMetadata {
    NodeMetadata {
        hostname: "test".into(),
        os: "test".into(),
        arch: "test".into(),
        client_version: "test".into(),
        metadata: Metadata::default(),
    }
}

fn node_record(node_id: NodeId, public_key: Option<[u8; 32]>) -> NodeRecord {
    NodeRecord {
        node_id,
        public_key,
        metadata: node_metadata(),
        public_ip: "127.0.0.1".into(),
        source_port: 1234,
        transport: TransportKind::Quic,
        status: NodeStatus::Offline,
        connected_at_unix_ms: 0,
        last_heartbeat_at_unix_ms: None,
        rtt_ms: None,
    }
}

fn service(name: &str, node_id: NodeId, protocol: Protocol) -> ServiceDefinition {
    ServiceDefinition {
        service_id: ServiceId::new(),
        service_name: name.into(),
        node_id,
        protocol,
        local_address: "127.0.0.1:22".into(),
        public_host: None,
        public_port: None,
        metadata: Metadata::default(),
    }
}

#[test]
fn node_identity_validation_allows_new_same_and_legacy_but_rejects_mismatch() {
    let mut state = state();
    let node_id = NodeId::new();
    let first_key = [7_u8; 32];
    let other_key = [8_u8; 32];

    assert!(validate_node_identity(node_id, &first_key, &state).is_ok());

    state
        .nodes
        .insert(node_id.0, node_record(node_id, Some(first_key)));
    assert!(validate_node_identity(node_id, &first_key, &state).is_ok());
    let error = validate_node_identity(node_id, &other_key, &state)
        .expect_err("a persisted identity mismatch must be rejected");
    assert!(error.message().contains("does not match persisted identity"));

    state.nodes.insert(node_id.0, node_record(node_id, None));
    assert!(validate_node_identity(node_id, &other_key, &state).is_ok());
}

#[test]
fn tcp_services_lease_the_lowest_free_port() {
    let mut state = state();
    let node = NodeId::new();
    for (name, port) in [("a", 20_000), ("b", 20_001), ("c", 20_002)] {
        let published = register_service(&mut state, service(name, node, Protocol::Tcp), node)
            .expect("a port is free");
        assert_eq!(published.public_port, Some(port));
        assert_eq!(published.public_host.as_deref(), Some("localhost"));
    }
    assert_eq!(
        first_available_tcp_port(&state.services, 20_000, 20_002),
        None
    );
    assert_eq!(
        register_service(&mut state, service("d", node, Protocol::Tcp), node).err(),
        Some(RegisterError::NoPortAvailable)
    );
    assert_eq!(
        first_available_tcp_port(&state.services, 20_000, 20_003),
        Some(20_003)
    );
    assert_eq!(first_available_tcp_port(&state.services, 9, 8), None);
    assert_eq!(persisted_tcp_services(&state).len(), 3);
}

#[test]
fn refused_registrations_change_nothing() {
    let mut state = state();
    let (node, other) = (NodeId::new(), NodeId::new());
    register_service(&mut state, service("ssh", node, Protocol::Tcp), node).unwrap();

    let taken = register_service(&mut state, service("ssh", other, Protocol::Tcp), other);
    assert_eq!(taken.err(), Some(RegisterError::NameInUse));

    let invalid = register_service(&mut state, service("SSH", node, Protocol::Tcp), node);
    assert_eq!(
        invalid.err(),
        Some(RegisterError::Invalid(ValidationError::InvalidServiceName))
    );

    let mut described = service("x", node, Protocol::Tcp);
    described.metadata.0.insert("Bad".into(), "v".into());
    assert_eq!(
        register_service(&mut state, described, node).err(),
        Some(RegisterError::Invalid(ValidationError::InvalidMetadataKey(
            "Bad".into()
        )))
    );

    let mut leased = service("y", node, Protocol::Tcp);
    leased.public_port = Some(20_000);
    let error = register_service(&mut state, leased, node).err().unwrap();
    assert_eq!(error, RegisterError::PortLeased(20_000));
    assert_eq!(error.message(), "TCP port 20000 is already leased");

    let mut outside = service("z", node, Protocol::Tcp);
    outside.public_port = Some(80);
    let error = register_service(&mut state, outside, node).err().unwrap();
    assert_eq!(error, RegisterError::PortOutsideRange(80));
    assert_eq!(
        error.message(),
        "TCP port 80 is outside the configured relay range"
    );

    state.http_domain = None;
    let error = register_service(&mut state, service("web", node, Protocol::Http), node)
        .err()
        .unwrap();
    assert_eq!(error, RegisterError::IngressNotConfigured);
    assert_eq!(
        error.message(),
        "HTTP/HTTPS ingress is not configured on this relay"
    );
    assert_eq!(
        RegisterError::NameInUse.message(),
        "service name is already in use"
    );
    assert_eq!(
        RegisterError::NoPortAvailable.message(),
        "no TCP relay ports are available"
    );
    assert_eq!(state.services.len(), 1);
}

#[test]
fn republication_keeps_identifier_and_port() {
    let mut state = state();
    let node = NodeId::new();
    let first = register_service(&mut state, service("ssh", node, Protocol::Tcp), node).unwrap();
    let mut again = service("ssh", node, Protocol::Tcp);
    again.public_port = Some(20_002);
    again.local_address = "127.0.0.1:2222".into();
    let second = register_service(&mut state, again, node).unwrap();
    assert_eq!(second.service_id, first.service_id);
    assert_eq!(second.public_port, first.public_port);
    assert_eq!(second.local_address, "127.0.0.1:2222");
    assert_eq!(state.services.len(), 1);

    let web = register_service(&mut state, service("ssh", node, Protocol::Https), node).unwrap();
    assert_eq!(web.service_id, first.service_id);
    assert_eq!(web.public_port, None);
    assert_eq!(web.public_host.as_deref(), Some("ssh.relay.test"));
    assert_eq!(
        find_service_at_host(&state, Protocol::Https, "ssh.relay.test"),
        Some(first.service_id)
    );
    assert_eq!(
        find_service_at_host(&state, Protocol::Http, "ssh.relay.test"),
        None
    );
}

#[test]
fn services_are_taken_out_by_their_node_only() {
    let mut state = state();
    let (node, other) = (NodeId::new(), NodeId::new());
    let id = register_service(&mut state, service("ssh", node, Protocol::Tcp), node)
        .unwrap()
        .service_id;
    assert!(!unregister_service(id, other, &mut state));
    assert_eq!(state.services.len(), 1);
    assert!(unregister_service(id, node, &mut state));
    assert!(state.services.is_empty());
    assert!(!unregister_service(id, node, &mut state));
}

#[test]
fn ingress_listens_once_for_each_service() {
    let mut state = state();
    let node = NodeId::new();
    let tcp = register_service(&mut state, service("ssh", node, Protocol::Tcp), node).unwrap();
    let web = register_service(&mut state, service("web", node, Protocol::Http), node).unwrap();
    assert_eq!(ensure_tcp_ingress(&state, &web), IngressAction::NoPort);
    assert_eq!(
        ensure_tcp_ingress(&state, &tcp),
        IngressAction::Listen(20_000)
    );
    assert!(!ingress_started(&mut state, tcp.service_id));
    assert_eq!(
        ensure_tcp_ingress(&state, &tcp),
        IngressAction::AlreadyListening
    );
    assert!(ingress_started(&mut state, tcp.service_id));
    assert!(ingress_stopped(&mut state, tcp.service_id));
    assert!(!ingress_stopped(&mut state, tcp.service_id));
}

#[test]
fn visitors_are_routed_over_the_session_of_the_node() {
    let mut state = state();
    let node = NodeId::new();
    let unknown = ServiceId::new();
    assert_eq!(
        route_to_service(&state, unknown),
        Err(RouteError::NotRegistered)
    );
    let id = register_service(&mut state, service("ssh", node, Protocol::Tcp), node)
        .unwrap()
        .service_id;
    assert_eq!(route_to_service(&state, id), Err(RouteError::NodeOffline));
    assert_eq!(
        RouteError::NotRegistered.message(),
        "service is no longer registered"
    );
    assert_eq!(RouteError::NodeOffline.message(), "service node is offline");
    activate_session(node, TunnelId::new(), TokenKind::User, 5, &mut state);
    let stream = request_stream(&state, id).unwrap();
    assert_eq!(stream.session.connection, 5);
    assert!(matches!(
        stream.request,
        Frame::OpenStream { tunnel_id, service_id }
            if tunnel_id == stream.tunnel_id && service_id == id
    ));
    assert!(request_stream(&state, unknown).is_err());
}

#[test]
fn both_ends_agree_on_data_streams() {
    let (tunnel_id, service_id) = (TunnelId::new(), ServiceId::new());
    let open = Frame::OpenStream {
        tunnel_id,
        service_id,
    };
    let mut published = BTreeMap::new();
    assert_eq!(
        find_local_target(&open, &published),
        Err(DataStreamError::UnknownService)
    );
    published.insert(service_id.0, "127.0.0.1:22".to_owned());
    assert_eq!(
        find_local_target(&open, &published),
        Ok((tunnel_id, "127.0.0.1:22".to_owned()))
    );
    assert_eq!(
        find_local_target(&Frame::Goodbye, &published),
        Err(DataStreamError::ExpectedOpenStream)
    );
    assert_eq!(
        DataStreamError::UnknownService.message(),
        "server requested an unknown service"
    );
    assert_eq!(
        DataStreamError::ExpectedOpenStream.message(),
        "expected OpenStream as first data stream frame"
    );

    let answer = |local: &LocalConnection| stream_answer(tunnel_id, "127.0.0.1:22", local);
    assert_eq!(
        check_stream_ack(answer(&LocalConnection::Connected), tunnel_id),
        Ok(())
    );
    let refused = check_stream_ack(
        answer(&LocalConnection::Failed("refused".into())),
        tunnel_id,
    );
    assert_eq!(
        refused.err().unwrap().message(),
        "client rejected local target: failed to connect to 127.0.0.1:22: refused"
    );
    assert_eq!(
        check_stream_ack(answer(&LocalConnection::TimedOut), tunnel_id),
        Err(AckError::Rejected(
            "timed out connecting to 127.0.0.1:22".into()
        ))
    );
    assert_eq!(
        check_stream_ack(answer(&LocalConnection::Connected), TunnelId::new()),
        Err(AckError::Invalid)
    );
    assert_eq!(
        AckError::Invalid.message(),
        "client returned an invalid data stream acknowledgement"
    );
}

fn open_session(connection: u64) -> ServerSession {
    ServerSession::new(
        connection,
        TransportKind::TcpTlsYamux,
        "203.0.113.9".to_owned(),
        4433,
    )
}

fn active_session(state: &mut AppState, connection: u64, node_id: NodeId) -> ServerSession {
    let mut session = open_session(connection);
    let hello = Frame::Hello {
        version: PROTOCOL_VERSION,
    };
    assert!(matches!(
        session.on_frame(hello, 0, state),
        SessionStep::Reply(Frame::Hello { version: 1 })
    ));
    let auth = Frame::Auth {
        token: "user".into(),
        node_id,
    };
    assert!(matches!(
        session.on_frame(auth, 0, state),
        SessionStep::Reply(Frame::AuthAccepted {
            kind: TokenKind::User
        })
    ));
    session
}

fn register(session: &mut ServerSession, state: &mut AppState, now: i64) -> SessionStep {
    let frame = Frame::RegisterNode {
        metadata: node_metadata(),
        public_key: [7; 32],
    };
    session.on_frame(frame, now, state)
}

#[test]
fn sessions_begin_with_hello_and_a_token() {
    let mut state = state();
    let mut session = open_session(1);
    let step = session.on_frame(Frame::Goodbye, 0, &mut state);
    assert!(matches!(
        step,
        SessionStep::Fail(SessionError::ExpectedHello)
    ));
    assert_eq!(session.phase, SessionPhase::Ended { node: None });
    assert!(matches!(
        session.on_frame(Frame::Hello { version: 1 }, 0, &mut state),
        SessionStep::Finish
    ));

    let mut session = open_session(1);
    assert!(matches!(
        session.on_frame(Frame::Hello { version: 2 }, 0, &mut state),
        SessionStep::ReplyAndFail(Frame::Error { message }, SessionError::UnsupportedVersion)
            if message == "unsupported protocol version"
    ));

    let mut session = open_session(1);
    session.on_frame(Frame::Hello { version: 1 }, 0, &mut state);
    assert!(matches!(
        session.on_frame(Frame::Goodbye, 0, &mut state),
        SessionStep::Fail(SessionError::ExpectedAuth)
    ));

    let mut session = open_session(1);
    session.on_frame(Frame::Hello { version: 1 }, 0, &mut state);
    let auth = Frame::Auth {
        token: "wrong".into(),
        node_id: NodeId::new(),
    };
    assert!(matches!(
        session.on_frame(auth, 0, &mut state),
        SessionStep::ReplyAndFail(Frame::AuthRejected, SessionError::AuthenticationRejected)
    ));
    assert!(session.finish(&mut state).is_none());
    assert!(state.nodes.is_empty());
}

#[test]
fn session_errors_have_texts() {
    for (error, text) in [
        (
            SessionError::UnsupportedVersion,
            "unsupported protocol version",
        ),
        (
            SessionError::ExpectedHello,
            "expected Hello as first control frame",
        ),
        (SessionError::ExpectedAuth, "expected Auth after Hello"),
        (
            SessionError::AuthenticationRejected,
            "client authentication rejected",
        ),
        (
            SessionError::InvalidMetadata(ValidationError::MetadataTooLarge),
            "metadata exceeds total size limit",
        ),
        (
            SessionError::IdentityMismatch,
            "node public key does not match persisted identity",
        ),
    ] {
        assert_eq!(error.message(), text);
    }
}

#[test]
fn a_node_registers_publishes_and_leaves() {
    let mut state = state();
    let node_id = NodeId::new();
    let mut session = active_session(&mut state, 1, node_id);

    let early = Frame::RegisterService {
        service: service("ssh", node_id, Protocol::Tcp),
    };
    assert!(matches!(
        session.on_frame(early, 0, &mut state),
        SessionStep::Reply(Frame::Error { message })
            if message == "node must be registered before publishing services"
    ));

    let step = register(&mut session, &mut state, 100);
    let SessionStep::NodeRegistered { node, close } = step else {
        panic!("the node is registered");
    };
    assert_eq!(close, None);
    assert_eq!(node.public_ip, "203.0.113.9");
    assert_eq!(node.source_port, 4433);
    assert_eq!(node.status, NodeStatus::Online);
    assert_eq!(node.connected_at_unix_ms, 100);
    assert_eq!(node.public_key, Some([7; 32]));

    let foreign = Frame::RegisterService {
        service: service("ssh", NodeId::new(), Protocol::Tcp),
    };
    assert!(matches!(
        session.on_frame(foreign, 0, &mut state),
        SessionStep::Reply(Frame::Error { .. })
    ));
    let publish = Frame::RegisterService {
        service: service("ssh", node_id, Protocol::Tcp),
    };
    let SessionStep::ServicePublished(published) = session.on_frame(publish, 0, &mut state) else {
        panic!("the service is published");
    };
    assert_eq!(published.public_port, Some(20_000));
    let id = published.service_id;
    assert!(matches!(
        publish_reply(Ok(published)),
        Frame::RegisterServiceAccepted { service } if service.service_id == id
    ));
    assert!(matches!(
        publish_reply(Err("no".into())),
        Frame::Error { message } if message == "no"
    ));
    let refused = Frame::RegisterService {
        service: service("Bad", node_id, Protocol::Tcp),
    };
    assert!(matches!(
        session.on_frame(refused, 0, &mut state),
        SessionStep::Reply(Frame::Error { message }) if message == "service name is invalid"
    ));

    let snapshot = HeartbeatSnapshot {
        sequence: 3,
        sent_at_unix_ms: 150,
        ..HeartbeatSnapshot::default()
    };
    let SessionStep::HeartbeatRecorded { stored, sequence } =
        session.on_frame(Frame::Heartbeat { snapshot }, 192, &mut state)
    else {
        panic!("the heartbeat is recorded");
    };
    assert_eq!(sequence, 3);
    let (node, metric) = stored.expect("the node is known");
    assert_eq!(node.rtt_ms, Some(42));
    assert_eq!(node.last_heartbeat_at_unix_ms, Some(192));
    assert_eq!(metric.recorded_at_unix_ms, 192);
    assert_eq!(metric.snapshot, snapshot);
    assert!(matches!(
        heartbeat_ack(3, 193),
        Frame::HeartbeatAck { sequence: 3, server_time_unix_ms: 193 }
    ));

    assert!(matches!(
        session.on_frame(Frame::AuthRejected, 0, &mut state),
        SessionStep::Reply(Frame::Error { message }) if message == "unsupported control frame"
    ));
    let unregister = |service_id| Frame::UnregisterService { service_id };
    assert!(matches!(
        session.on_frame(unregister(ServiceId::new()), 0, &mut state),
        SessionStep::Nothing
    ));
    assert!(matches!(
        session.on_frame(unregister(id), 0, &mut state),
        SessionStep::ServiceRemoved(removed) if removed == id
    ));
    assert!(matches!(
        session.on_frame(Frame::Goodbye, 0, &mut state),
        SessionStep::Finish
    ));
    let offline = session.finish(&mut state).expect("the node goes offline");
    assert_eq!(offline.status, NodeStatus::Offline);
    assert!(state.sessions.is_empty());
}

#[test]
fn a_session_fails_on_bad_metadata_or_a_foreign_key() {
    let mut state = state();
    let node_id = NodeId::new();
    let mut session = active_session(&mut state, 1, node_id);
    let mut metadata = node_metadata();
    metadata.metadata.0.insert("Bad".into(), "x".into());
    let frame = Frame::RegisterNode {
        metadata,
        public_key: [7; 32],
    };
    assert!(matches!(
        session.on_frame(frame, 0, &mut state),
        SessionStep::Fail(SessionError::InvalidMetadata(
            ValidationError::InvalidMetadataKey(_)
        ))
    ));

    state
        .nodes
        .insert(node_id.0, node_record(node_id, Some([8; 32])));
    let mut session = active_session(&mut state, 1, node_id);
    assert!(matches!(
        register(&mut session, &mut state, 0),
        SessionStep::Fail(SessionError::IdentityMismatch)
    ));
    assert!(state.sessions.is_empty());
}

#[test]
fn a_new_session_supersedes_the_earlier_one() {
    let mut state = state();
    let node_id = NodeId::new();
    let mut first = active_session(&mut state, 1, node_id);
    register(&mut first, &mut state, 10);
    let mut second = active_session(&mut state, 2, node_id);
    let SessionStep::NodeRegistered { close, .. } = register(&mut second, &mut state, 20) else {
        panic!("the node is registered");
    };
    assert_eq!(close, Some(1));
    assert!(first.finish(&mut state).is_none());
    assert_eq!(state.nodes[&node_id.0].status, NodeStatus::Online);
    assert_eq!(state.sessions[&node_id.0].connection, 2);
    assert!(second.finish(&mut state).is_some());
    assert_eq!(state.nodes[&node_id.0].status, NodeStatus::Offline);
}

#[test]
fn sessions_end_only_under_their_own_identifier() {
    let mut state = state();
    let node_id = NodeId::new();
    let id = TunnelId::new();
    assert_eq!(
        activate_session(node_id, id, TokenKind::User, 9, &mut state),
        None
    );
    assert!(end_session(node_id, TunnelId::new(), &mut state).is_none());
    assert_eq!(state.sessions.len(), 1);
    assert!(end_session(node_id, id, &mut state).is_none());
    assert!(state.sessions.is_empty());
}

#[test]
fn heartbeats_bound_the_round_trip() {
    assert_eq!(round_trip_ms(100, 58), 42);
    assert_eq!(round_trip_ms(58, 100), 0);
    assert_eq!(round_trip_ms(3_600_001, 0), 3_600_000);
    assert_eq!(round_trip_ms(i64::MAX, i64::MIN), 3_600_000);
    assert_eq!(round_trip_ms(i64::MIN, i64::MAX), 0);
    let mut state = state();
    let snapshot = HeartbeatSnapshot::default();
    assert!(record_heartbeat(NodeId::new(), snapshot, 5, &mut state).is_none());
    assert!(state.nodes.is_empty());
}

#[test]
fn leases_outlive_a_change_of_settings() {
    let mut before = state();
    let node = NodeId::new();
    let kept = register_service(&mut before, service("a", node, Protocol::Tcp), node).unwrap();
    let mut after = AppState::new(
        before.tokens,
        before.services,
        BTreeMap::new(),
        "localhost".to_owned(),
        None,
        20_000,
        20_000,
    );
    assert_eq!(
        register_service(&mut after, service("b", node, Protocol::Tcp), node).err(),
        Some(RegisterError::NoPortAvailable)
    );
    let mut moved = AppState::new(
        after.tokens,
        after.services,
        BTreeMap::new(),
        "localhost".to_owned(),
        None,
        20_001,
        20_002,
    );
    let other = register_service(&mut moved, service("b", node, Protocol::Tcp), node).unwrap();
    assert_eq!(other.public_port, Some(20_001));
    assert_eq!(moved.services[&kept.service_id.0].public_port, Some(20_000));
    assert_eq!(
        register_service(&mut moved, service("a", NodeId::new(), Protocol::Tcp), NodeId::new())
            .err(),
        Some(RegisterError::NameInUse)
    );
}

#[test]
fn services_that_cannot_be_reached_are_withdrawn() {
    let mut state = state();
    let node = NodeId::new();
    let other = register_service(&mut state, service("a", node, Protocol::Tcp), node).unwrap();
    let tcp = register_service(&mut state, service("b", node, Protocol::Tcp), node).unwrap();
    let id = tcp.service_id;
    let again = tcp.clone();
    let (reply, withdrawn) = finish_publication(tcp, true, &mut state);
    assert!(matches!(
        reply,
        Frame::RegisterServiceAccepted { service } if service.service_id == id
    ));
    assert_eq!(withdrawn, None);
    assert_eq!(state.services.len(), 2);
    let (reply, withdrawn) = finish_publication(again, false, &mut state);
    assert!(matches!(
        reply,
        Frame::Error { message } if message == "failed to activate TCP relay port"
    ));
    assert_eq!(withdrawn, Some(id));
    assert_eq!(state.services.len(), 1);
    assert!(state.services.contains_key(&other.service_id.0));
    let error = settle_publication(other, false, &mut state).err().unwrap();
    assert_eq!(error.message(), "failed to activate TCP relay port");
    let web = register_service(&mut state, service("web", node, Protocol::Http), node).unwrap();
    assert!(settle_publication(web, false, &mut state).is_ok());
    assert_eq!(state.services.len(), 1);
}

#[test]
fn replacing_a_token_cuts_off_its_sessions() {
    let mut state = state();
    let (user, admin, silent) = (NodeId(1), NodeId(2), NodeId(3));
    for (node, kind) in [
        (user, TokenKind::User),
        (admin, TokenKind::Admin),
        (silent, TokenKind::User),
    ] {
        activate_session(node, TunnelId::new(), kind, node.0 as u64, &mut state);
        if node != silent {
            let mut record = node_record(node, None);
            record.status = NodeStatus::Online;
            state.nodes.insert(node.0, record);
        }
    }
    let cut = replace_token(&mut state, TokenKind::User, Some(hash_token("next")));
    assert_eq!(cut.len(), 2);
    assert_eq!(cut[0].node_id, user);
    assert_eq!(cut[0].connection, 1);
    let record = cut[0].node.as_ref().expect("the node is known");
    assert_eq!(record.status, NodeStatus::Offline);
    assert_eq!(cut[1].node_id, silent);
    assert!(cut[1].node.is_none());
    assert_eq!(state.sessions.len(), 1);
    assert_eq!(state.nodes[&admin.0].status, NodeStatus::Online);
    assert_eq!(authenticate_token("user", &state), None);
    assert_eq!(authenticate_token("next", &state), Some(TokenKind::User));
    assert_eq!(authenticate_token("admin", &state), Some(TokenKind::Admin));
}

#[test]
fn client_and_relay_understand_each_other() {
    let mut state = state();
    let node_id = NodeId::new();
    let mut server = open_session(1);
    let (mut client, hello) = ClientSession::new(
        TransportKind::TcpTlsYamux,
        "user".into(),
        node_id,
        node_metadata(),
        [7; 32],
        Some(service("ssh", node_id, Protocol::Tcp)),
        false,
    );
    let SessionStep::Reply(reply) = server.on_frame(hello, 0, &mut state) else {
        panic!("the relay greets the client");
    };
    let ClientStep::Send(auth) = client.on_frame(reply) else {
        panic!("the client sends its token");
    };
    let SessionStep::Reply(reply) = server.on_frame(auth, 0, &mut state) else {
        panic!("the relay accepts the token");
    };
    let ClientStep::Register(node, Some(publish)) = client.on_frame(reply) else {
        panic!("the client registers");
    };
    assert!(matches!(
        server.on_frame(node, 0, &mut state),
        SessionStep::NodeRegistered { .. }
    ));
    let SessionStep::ServicePublished(published) = server.on_frame(publish, 0, &mut state) else {
        panic!("the relay publishes the service");
    };
    let ClientStep::Published { line, .. } = client.on_frame(publish_reply(Ok(published))) else {
        panic!("the client learns of it");
    };
    assert_eq!(line, "published service=ssh endpoint=localhost:20000");
    let sequence = client.next_heartbeat();
    let snapshot = HeartbeatSnapshot {
        sequence,
        ..HeartbeatSnapshot::default()
    };
    let SessionStep::HeartbeatRecorded { sequence, .. } =
        server.on_frame(Frame::Heartbeat { snapshot }, 5, &mut state)
    else {
        panic!("the relay records the heartbeat");
    };
    assert!(matches!(
        client.on_frame(heartbeat_ack(sequence, 5)),
        ClientStep::Alive(_)
    ));
}

#[test]
fn metadata_has_no_part_in_routing() {
    let mut state = state();
    let node = NodeId::new();
    let id = register_service(&mut state, service("web", node, Protocol::Http), node)
        .unwrap()
        .service_id;
    let mut described = service("web", node, Protocol::Http);
    described
        .metadata
        .0
        .insert("host".into(), "elsewhere.test".into());
    let again = register_service(&mut state, described, node).unwrap();
    assert_eq!(again.service_id, id);
    assert_eq!(
        find_service_at_host(&state, Protocol::Http, "web.relay.test"),
        Some(id)
    );
    assert_eq!(route_to_service(&state, id), Err(RouteError::NodeOffline));
}

#[test]
fn taking_a_new_service_out_leaves_the_directory_as_it_was() {
    let mut state = state();
    let node = NodeId::new();
    register_service(&mut state, service("a", node, Protocol::Tcp), node).unwrap();
    let before: Vec<u128> = state.services.keys().copied().collect();
    let added = register_service(&mut state, service("b", node, Protocol::Tcp), node).unwrap();
    assert_eq!(added.public_port, Some(20_001));
    assert!(unregister_service(added.service_id, node, &mut state));
    assert_eq!(state.services.keys().copied().collect::<Vec<_>>(), before);
    let next = register_service(&mut state, service("c", node, Protocol::Tcp), node).unwrap();
    assert_eq!(next.public_port, Some(20_001));
}
