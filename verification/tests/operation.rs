use ongrok::client::{
    after_connection, base_delay_seconds, bearer_value, connected_line, is_authentication_error,
    published_line, retry_with, services_answer, services_url, services_url_of, ClientError,
    ClientPhase, ClientSession, ClientStep, QuicOutcome, RelayEndpoints, RetryStep, ServerUrlError,
    UriParts,
};
use ongrok::config::{
    config_source, env_file_updates, environment_updates, is_white_space, parse_env_line,
    validate_run_options, ConfigFile, ConfigSource, OptionsError, RunOptions, SocketAddress,
};
use ongrok::frame::Frame;
use ongrok::identity::{
    load_or_create_state, local_node_metadata, node_public_key, settle_state, unix_ms, NodeState,
};
use ongrok::ids::{EventId, NodeId, ServiceId};
use ongrok::metadata::Metadata;
use ongrok::model::{
    ControlEvent, EventKind, HeartbeatSnapshot, NodeMetric, Protocol, ServiceDefinition,
    TokenKind, TransportKind,
};
use ongrok::store::{
    event_key, expired_keys, is_metric_of, metric_key, recent_events, retention_cutoff,
    token_state_key, StoredMetric, METRIC_RETENTION_MS,
};
use ongrok::text::hex_encode;
use ongrok::tls::{
    accept_certificates, accept_key, certificate_chain, root_certificates, server_key, KeyEncoding,
    TlsFault,
};
use std::collections::BTreeMap;

fn address(text: &str) -> SocketAddress {
    SocketAddress { text: text.into() }
}

fn options() -> RunOptions {
    RunOptions {
        tls_cert: "cert.pem".to_owned(),
        tls_key: "key.pem".to_owned(),
        api_listen: address("127.0.0.1:8080"),
        quic_listen: address("0.0.0.0:443"),
        tcp_tls_listen: address("0.0.0.0:443"),
        http_listen: None,
        https_listen: None,
        http_domain: None,
        public_host: "example.test".to_owned(),
        tcp_port_start: 20_000,
        tcp_port_end: 30_000,
        admin_token: "admin".to_owned(),
        user_token: "user".to_owned(),
        db_path: "ongrok.redb".to_owned(),
    }
}

#[test]
fn rejects_reversed_port_range() {
    let mut value = options();
    value.tcp_port_start = 30_001;
    assert!(validate_run_options(&value).is_err());
}

#[test]
fn requires_domain_for_http_listener() {
    let mut value = options();
    value.http_listen = Some(address("0.0.0.0:80"));
    assert!(validate_run_options(&value).is_err());
}

#[test]
fn accepts_valid_http_configuration() {
    let mut value = options();
    value.https_listen = Some(address("0.0.0.0:443"));
    value.http_domain = Some("relay.example.test".to_owned());
    value.tcp_tls_listen = address("0.0.0.0:8443");
    assert!(validate_run_options(&value).is_ok());
}

#[test]
fn rejects_tcp_listener_address_conflicts() {
    let mut value = options();
    value.http_listen = Some(address("0.0.0.0:8443"));
    value.http_domain = Some("relay.example.test".to_owned());
    value.tcp_tls_listen = address("0.0.0.0:8443");
    assert!(validate_run_options(&value).is_err());
}

#[test]
fn option_errors_are_exact() {
    assert_eq!(validate_run_options(&options()), Ok(()));
    let mut value = options();
    value.tcp_port_start = 30_001;
    let error = validate_run_options(&value).unwrap_err();
    assert_eq!(error, OptionsError::PortRange);
    assert_eq!(
        error.message(),
        "tcp port start must not exceed tcp port end"
    );

    let mut value = options();
    value.http_domain = Some("relay.test".to_owned());
    let error = validate_run_options(&value).unwrap_err();
    assert_eq!(error, OptionsError::DomainRequired);
    assert_eq!(
        error.message(),
        "--http-domain is required when --http-listen or --https-listen is configured"
    );

    for domain in ["", "two words", "tab\t", "no\u{2003}space"] {
        let mut value = options();
        value.http_listen = Some(address("0.0.0.0:80"));
        value.http_domain = Some(domain.to_owned());
        let error = validate_run_options(&value).unwrap_err();
        assert_eq!(error, OptionsError::InvalidDomain);
        assert_eq!(
            error.message(),
            "--http-domain must be a non-empty hostname without whitespace"
        );
    }
    let mut value = options();
    value.http_listen = Some(address("0.0.0.0:80"));
    value.http_domain = Some("d".repeat(253));
    assert!(validate_run_options(&value).is_ok());
    value.http_domain = Some("d".repeat(254));
    assert_eq!(
        validate_run_options(&value),
        Err(OptionsError::InvalidDomain)
    );

    let mut value = options();
    value.api_listen = address("0.0.0.0:443");
    assert_eq!(
        validate_run_options(&value).unwrap_err().message(),
        "api and tcp-tls listeners use the same TCP address 0.0.0.0:443"
    );
    value.api_listen = address("0.0.0.0:0");
    value.tcp_tls_listen = address("0.0.0.0:0");
    assert!(validate_run_options(&value).is_ok());
    let mut value = options();
    value.http_domain = Some("relay.test".to_owned());
    value.http_listen = Some(address("0.0.0.0:80"));
    value.https_listen = Some(address("0.0.0.0:80"));
    assert_eq!(
        validate_run_options(&value).unwrap_err().message(),
        "http and https listeners use the same TCP address 0.0.0.0:80"
    );
}

#[test]
fn white_space_is_that_of_unicode() {
    for code in 0..=0x10FFFFu32 {
        if let Some(c) = char::from_u32(code) {
            assert_eq!(is_white_space(c), c.is_whitespace(), "{code:x}");
        }
    }
}

fn arguments(list: &[&str]) -> Vec<String> {
    list.iter().map(|text| text.to_string()).collect()
}

#[test]
fn the_configuration_file_is_found() {
    let given = arguments(&["run", "--config", "a.toml", "--config=b.toml"]);
    assert_eq!(config_source(false, &given), ConfigSource::Argument(2));
    let inline = arguments(&["--config=b.toml", "--config", "a.toml"]);
    assert_eq!(
        config_source(false, &inline),
        ConfigSource::Inline("b.toml".into())
    );
    let last = arguments(&["run", "--config"]);
    assert_eq!(config_source(false, &last), ConfigSource::NotGiven);
    assert_eq!(
        config_source(false, &arguments(&["run", "--configure"])),
        ConfigSource::NotGiven
    );
    assert_eq!(config_source(false, &vec![]), ConfigSource::NotGiven);
}

#[test]
fn the_command_line_outweighs_the_environment() {
    let given = arguments(&["--config", "b.toml", "run"]);
    assert_eq!(config_source(true, &given), ConfigSource::Argument(1));
    let inline = arguments(&["run", "--config=b.toml"]);
    assert_eq!(
        config_source(true, &inline),
        ConfigSource::Inline("b.toml".into())
    );
    for silent in [&["run"][..], &["run", "--config"][..], &[][..]] {
        assert_eq!(
            config_source(true, &arguments(silent)),
            ConfigSource::Environment
        );
    }
}

fn section(label: &str, base64: &str) -> String {
    format!("-----BEGIN {label}-----\n{base64}\n-----END {label}-----\n")
}

#[test]
fn certificates_are_read_out_of_pem_files() {
    let one = section("CERTIFICATE", "AQID");
    let two = section("CERTIFICATE", "BAU=");
    let other = section("PUBLIC KEY", "Bg==");
    let file = format!("a comment\n{one}{other}{two}");
    let found = vec![vec![1, 2, 3], vec![4, 5]];
    assert_eq!(certificate_chain(file.as_bytes()), Ok(found.clone()));
    assert_eq!(root_certificates(file.as_bytes()), Ok(found));
    for empty in ["", "no sections\n", other.as_str()] {
        assert_eq!(
            certificate_chain(empty.as_bytes()),
            Err(TlsFault::EmptyChain)
        );
        assert_eq!(
            root_certificates(empty.as_bytes()),
            Err(TlsFault::EmptyRoots)
        );
    }
    let open = "-----BEGIN CERTIFICATE-----\nAQID\n".to_owned();
    for malformed in [open.clone(), section("CERTIFICATE", "?"), one + &open] {
        assert_eq!(
            certificate_chain(malformed.as_bytes()),
            Err(TlsFault::MalformedChain)
        );
        assert_eq!(
            root_certificates(malformed.as_bytes()),
            Err(TlsFault::MalformedRoots)
        );
    }
    assert_eq!(
        accept_certificates(None, TlsFault::MalformedChain, TlsFault::EmptyChain),
        Err(TlsFault::MalformedChain)
    );
    assert_eq!(
        accept_certificates(Some(vec![]), TlsFault::MalformedChain, TlsFault::EmptyChain),
        Err(TlsFault::EmptyChain)
    );
}

#[test]
fn private_keys_are_read_out_of_pem_files() {
    for (label, encoding) in [
        ("RSA PRIVATE KEY", KeyEncoding::Pkcs1),
        ("EC PRIVATE KEY", KeyEncoding::Sec1),
        ("PRIVATE KEY", KeyEncoding::Pkcs8),
    ] {
        let file = section("CERTIFICATE", "AQID") + &section(label, "BAU=") + &section(label, "Bg==");
        let key = server_key(file.as_bytes()).ok().expect("there is a key");
        assert_eq!(key.encoding, encoding);
        assert_eq!(key.der, [4, 5]);
    }
    let fault = |file: &str| server_key(file.as_bytes()).err();
    assert_eq!(fault(""), Some(TlsFault::MissingKey));
    assert_eq!(
        fault(&section("CERTIFICATE", "AQID")),
        Some(TlsFault::MissingKey)
    );
    assert_eq!(
        fault(&section("PRIVATE KEY", "?")),
        Some(TlsFault::MalformedKey)
    );
    assert_eq!(accept_key(None).err(), Some(TlsFault::MalformedKey));
    assert_eq!(accept_key(Some(None)).err(), Some(TlsFault::MissingKey));
}

#[test]
fn tls_faults_have_a_text() {
    for (fault, text) in [
        (
            TlsFault::MalformedChain,
            "failed to parse TLS certificate chain",
        ),
        (TlsFault::EmptyChain, "TLS certificate chain is empty"),
        (TlsFault::MalformedKey, "failed to parse TLS private key"),
        (TlsFault::MissingKey, "TLS private key is missing"),
        (
            TlsFault::MalformedRoots,
            "failed to parse CA certificate PEM",
        ),
        (TlsFault::EmptyRoots, "CA certificate file is empty"),
    ] {
        assert_eq!(fault.message(), text);
    }
}

#[test]
fn the_environment_outweighs_the_configuration_file() {
    let config = ConfigFile {
        tls_cert: Some("/etc/ongrok/fullchain.pem".into()),
        tls_key: None,
        api_listen: Some("127.0.0.1:8080".into()),
        quic_listen: None,
        tcp_tls_listen: None,
        http_listen: None,
        https_listen: None,
        http_domain: None,
        public_host: Some("relay.example.test".into()),
        tcp_port_start: Some(20_000),
        tcp_port_end: Some(0),
        admin_token: None,
        user_token: None,
        db_path: Some("x.redb".into()),
    };
    let present = arguments(&["ONGROK_API_LISTEN", "HOME"]);
    let updates = environment_updates(&config, &present);
    let expected: Vec<(String, String)> = [
        ("ONGROK_TLS_CERT", "/etc/ongrok/fullchain.pem"),
        ("ONGROK_PUBLIC_HOST", "relay.example.test"),
        ("ONGROK_TCP_PORT_START", "20000"),
        ("ONGROK_TCP_PORT_END", "0"),
        ("ONGROK_DB_PATH", "x.redb"),
    ]
    .iter()
    .map(|(name, value)| (name.to_string(), value.to_string()))
    .collect();
    assert_eq!(updates, expected);
}

#[test]
fn environment_files_are_read_line_by_line() {
    let pair = |name: &str, value: &str| Some((name.to_string(), value.to_string()));
    assert_eq!(parse_env_line("A=b"), pair("A", "b"));
    assert_eq!(parse_env_line("  A = b c \t"), pair("A", "b c"));
    assert_eq!(parse_env_line("A='b c'"), pair("A", "b c"));
    assert_eq!(parse_env_line("A=\"b=c\""), pair("A", "b=c"));
    assert_eq!(parse_env_line("A=\"b"), pair("A", "\"b"));
    assert_eq!(parse_env_line("A="), pair("A", ""));
    for line in ["", "   ", "# A=b", "A", "=b"] {
        assert_eq!(parse_env_line(line), None, "{line}");
    }
    let lines = arguments(&["A=1", "B=2", "# note", "A=3", "C=4"]);
    let updates = env_file_updates(&lines, &arguments(&["B"]));
    assert_eq!(
        updates,
        [
            ("A".to_string(), "1".to_string()),
            ("C".to_string(), "4".to_string())
        ]
    );
}

fn metric(node_id: NodeId, recorded_at_unix_ms: i64, sequence: u64) -> NodeMetric {
    NodeMetric {
        node_id,
        recorded_at_unix_ms,
        rtt_ms: Some(12),
        snapshot: HeartbeatSnapshot {
            sequence,
            sent_at_unix_ms: recorded_at_unix_ms,
            ..HeartbeatSnapshot::default()
        },
    }
}

fn put_metric(table: &mut BTreeMap<String, NodeMetric>, metric: NodeMetric) {
    table.insert(metric_key(&metric), metric);
    let stored: Vec<StoredMetric> = table
        .iter()
        .map(|(key, metric)| StoredMetric {
            key: key.clone(),
            metric: Some(*metric),
        })
        .collect();
    for key in expired_keys(&stored, metric.recorded_at_unix_ms) {
        table.remove(&key);
    }
}

#[test]
fn metric_retention_keeps_only_the_last_three_days() {
    let mut table = BTreeMap::new();
    let node_id = NodeId::new();
    let now = 1_800_000_000_000_i64;

    put_metric(&mut table, metric(node_id, now - METRIC_RETENTION_MS - 1, 1));
    put_metric(&mut table, metric(node_id, now - METRIC_RETENTION_MS + 1, 2));
    put_metric(&mut table, metric(node_id, now, 3));

    let metrics: Vec<NodeMetric> = table
        .iter()
        .filter(|(key, _)| is_metric_of(key, node_id))
        .map(|(_, metric)| *metric)
        .collect();
    assert_eq!(metrics.len(), 2);
    assert!(metrics
        .iter()
        .all(|item| item.recorded_at_unix_ms >= now - METRIC_RETENTION_MS));
    assert!(!metrics.iter().any(|item| item.snapshot.sequence == 1));
    assert!(metrics.iter().any(|item| item.snapshot.sequence == 2));
    assert!(metrics.iter().any(|item| item.snapshot.sequence == 3));
}

#[test]
fn metrics_at_the_limit_and_unreadable_ones_are_kept() {
    assert_eq!(METRIC_RETENTION_MS, 3 * 24 * 60 * 60 * 1_000);
    assert_eq!(retention_cutoff(METRIC_RETENTION_MS), 0);
    assert_eq!(retention_cutoff(i64::MIN + 5), i64::MIN);
    let node = NodeId::new();
    let stored = vec![
        StoredMetric {
            key: "limit".into(),
            metric: Some(metric(node, 0, 1)),
        },
        StoredMetric {
            key: "old".into(),
            metric: Some(metric(node, -1, 2)),
        },
        StoredMetric {
            key: "unreadable".into(),
            metric: None,
        },
    ];
    assert_eq!(expired_keys(&stored, METRIC_RETENTION_MS), ["old"]);
}

#[test]
fn metric_keys_follow_time() {
    let node = NodeId(0x0123_4567_89ab_cdef_0123_4567_89ab_cdef);
    assert_eq!(
        metric_key(&metric(node, 42, 7)),
        "01234567-89ab-cdef-0123-456789abcdef:00000000000000000042:00000000000000000007"
    );
    assert_eq!(
        metric_key(&metric(node, -42, u64::MAX)),
        "01234567-89ab-cdef-0123-456789abcdef:-0000000000000000042:18446744073709551615"
    );
    for time in [0i64, 5, -5, i64::MAX, i64::MIN] {
        assert_eq!(
            metric_key(&metric(node, time, 1))[37..57],
            format!("{time:020}")
        );
    }
    let mut keys: Vec<String> = [(9, 2), (10, 1), (9, 10), (100, 0)]
        .iter()
        .map(|(time, sequence)| metric_key(&metric(node, *time, *sequence)))
        .collect();
    keys.sort();
    let ends: Vec<&str> = keys.iter().map(|key| &key[55..]).collect();
    assert_eq!(
        ends,
        [
            "09:00000000000000000002",
            "09:00000000000000000010",
            "10:00000000000000000001",
            "00:00000000000000000000"
        ]
    );
    let key = metric_key(&metric(node, 1, 1));
    assert!(is_metric_of(&key, node));
    assert!(!is_metric_of(&key, NodeId::new()));
    assert_eq!(token_state_key(), "state");
}

fn event(occurred_at_unix_ms: i64, kind: EventKind) -> ControlEvent {
    ControlEvent {
        event_id: EventId::new(),
        occurred_at_unix_ms,
        kind,
        node_id: None,
        service_id: None,
        token_kind: None,
    }
}

#[test]
fn recent_events_are_newest_first_and_limited() {
    let stored = vec![
        event(10, EventKind::NodeOnline),
        event(30, EventKind::ServiceRegistered),
        event(20, EventKind::NodeOffline),
    ];
    let events = recent_events(&stored, 2);
    assert_eq!(events.len(), 2);
    assert_eq!(events[0].occurred_at_unix_ms, 30);
    assert_eq!(events[1].occurred_at_unix_ms, 20);
}

#[test]
fn events_of_one_time_keep_their_order() {
    let stored = vec![
        event(5, EventKind::NodeOnline),
        event(7, EventKind::NodeOffline),
        event(5, EventKind::TokenRotated),
        event(7, EventKind::TokenRevoked),
    ];
    let kinds: Vec<EventKind> = recent_events(&stored, 10).iter().map(|e| e.kind).collect();
    assert_eq!(
        kinds,
        [
            EventKind::NodeOffline,
            EventKind::TokenRevoked,
            EventKind::NodeOnline,
            EventKind::TokenRotated
        ]
    );
    assert!(recent_events(&stored, 0).is_empty());
    let mut early = event(-5, EventKind::ServiceDeleted);
    early.event_id = EventId(1);
    assert_eq!(
        event_key(&early),
        "00000000000000000000:00000000-0000-0000-0000-000000000001"
    );
    early.occurred_at_unix_ms = 12;
    assert_eq!(&event_key(&early)[..21], "00000000000000000012:");
}

#[test]
fn state_is_stable_after_first_creation() {
    let (first, write) = load_or_create_state(None);
    assert!(write);
    let (second, write) = load_or_create_state(Some(first));
    assert!(!write);
    assert_eq!(first.node_id.0, second.node_id.0);
    assert_eq!(first.private_key, second.private_key);
    let (other, _) = load_or_create_state(None);
    assert_ne!(first.node_id, other.node_id);
    assert_ne!(first.private_key, other.private_key);
}

#[test]
fn legacy_state_is_migrated_without_changing_its_node_id() {
    let node_id = NodeId::new();
    let found = NodeState {
        node_id,
        private_key: [0; 32],
    };
    let (state, write) = load_or_create_state(Some(found));
    assert!(write);
    assert_eq!(state.node_id.0, node_id.0);
    assert_ne!(state.private_key, [0; 32]);
    assert_eq!(
        node_public_key(&state),
        node_public_key(&load_or_create_state(Some(state)).0)
    );
}

#[test]
fn identities_are_settled_from_fresh_values() {
    let fresh = NodeId::new();
    let (made, write) = settle_state(None, fresh, [5; 32]);
    assert!(write);
    assert_eq!(made.node_id, fresh);
    assert_eq!(made.private_key, [5; 32]);
    let (kept, write) = settle_state(Some(made), NodeId::new(), [6; 32]);
    assert!(!write);
    assert_eq!(kept.node_id, fresh);
    assert_eq!(kept.private_key, [5; 32]);
}

#[test]
fn public_keys_are_those_of_ed25519() {
    let mut private_key = [0u8; 32];
    let secret = "9d61b19deffd5a60ba844af492ec2cc44449c5697b326919703bac031cae7f60";
    for (i, byte) in private_key.iter_mut().enumerate() {
        *byte = u8::from_str_radix(&secret[2 * i..2 * i + 2], 16).unwrap();
    }
    let state = NodeState {
        node_id: NodeId::new(),
        private_key,
    };
    assert_eq!(
        hex_encode(&node_public_key(&state)),
        "d75a980182b10ab7d54bfed3c964073a0ee172f3daa62325af021a68f707511a"
    );
}

#[test]
fn nodes_describe_themselves() {
    let named = local_node_metadata(Some("box".into()), "linux", "x86_64", "1.0");
    assert_eq!(named.hostname, "box");
    assert_eq!(named.os, "linux");
    assert_eq!(named.arch, "x86_64");
    assert_eq!(named.client_version, "1.0");
    assert!(named.metadata.validate().is_ok());
    let unnamed = local_node_metadata(None, "linux", "x86_64", "1.0");
    assert_eq!(unnamed.hostname, "unknown");
    assert_eq!(unix_ms(Some(1_700_000_000_000)), 1_700_000_000_000);
    assert_eq!(unix_ms(None), 0);
}

fn published_service() -> ServiceDefinition {
    ServiceDefinition {
        service_id: ServiceId::new(),
        service_name: "ssh".into(),
        node_id: NodeId(1),
        protocol: Protocol::Tcp,
        local_address: "127.0.0.1:22".into(),
        public_host: None,
        public_port: None,
        metadata: Metadata::default(),
    }
}

fn client(service: Option<ServiceDefinition>, once: bool) -> ClientSession {
    let metadata = local_node_metadata(None, "os", "arch", "1");
    let (session, first) = ClientSession::new(
        TransportKind::Quic,
        "token".into(),
        NodeId(1),
        metadata,
        [9; 32],
        service,
        once,
    );
    assert!(matches!(first, Frame::Hello { version: 1 }));
    session
}

#[test]
fn a_client_session_runs_from_hello_to_goodbye() {
    let asked = published_service();
    let id = asked.service_id;
    let mut session = client(Some(asked), true);
    assert!(matches!(
        session.on_frame(Frame::Hello { version: 1 }),
        ClientStep::Send(Frame::Auth { token, node_id }) if token == "token" && node_id == NodeId(1)
    ));
    let accepted = Frame::AuthAccepted {
        kind: TokenKind::User,
    };
    assert!(matches!(
        session.on_frame(accepted),
        ClientStep::Register(
            Frame::RegisterNode { public_key, .. },
            Some(Frame::RegisterService { service })
        ) if public_key == [9; 32] && service.service_id == id
    ));
    let mut assigned = published_service();
    assigned.public_host = Some("relay.test".into());
    assigned.public_port = Some(22_001);
    assigned.local_address = "elsewhere".into();
    let assigned_id = assigned.service_id;
    let step = session.on_frame(Frame::RegisterServiceAccepted { service: assigned });
    let ClientStep::Published {
        service_id,
        local_address,
        line,
    } = step
    else {
        panic!("the service is published");
    };
    assert_eq!(service_id, assigned_id);
    assert_eq!(local_address, "127.0.0.1:22");
    assert_eq!(line, "published service=ssh endpoint=relay.test:22001");
    assert_eq!(session.next_heartbeat(), 1);
    let ack = Frame::HeartbeatAck {
        sequence: 1,
        server_time_unix_ms: 0,
    };
    assert!(matches!(
        session.on_frame(ack),
        ClientStep::Finish(line, Frame::Goodbye)
            if line == "connected transport=quic \
                node_id=00000000-0000-0000-0000-000000000001 heartbeat=1"
    ));
    assert_eq!(session.phase, ClientPhase::Ended);
    assert!(matches!(
        session.on_frame(Frame::Goodbye),
        ClientStep::Fail(ClientError::SessionEnded)
    ));
}

#[test]
fn a_client_session_without_service_goes_on_with_heartbeats() {
    let mut session = client(None, false);
    session.on_frame(Frame::Hello { version: 1 });
    let accepted = Frame::AuthAccepted {
        kind: TokenKind::Admin,
    };
    assert!(matches!(
        session.on_frame(accepted),
        ClientStep::Register(Frame::RegisterNode { .. }, None)
    ));
    for sequence in 1..4 {
        assert_eq!(session.next_heartbeat(), sequence);
        let ack = Frame::HeartbeatAck {
            sequence,
            server_time_unix_ms: 0,
        };
        assert!(matches!(session.on_frame(ack), ClientStep::Alive(_)));
    }
    session.next_heartbeat();
    let stale = Frame::HeartbeatAck {
        sequence: 3,
        server_time_unix_ms: 0,
    };
    assert!(matches!(
        session.on_frame(stale),
        ClientStep::Fail(ClientError::InvalidHeartbeatAck)
    ));
}

fn failure(step: ClientStep) -> String {
    match step {
        ClientStep::Fail(error) => error.message(),
        _ => panic!("the session fails"),
    }
}

#[test]
fn a_client_session_fails_with_a_reason() {
    let error = |message: &str| Frame::Error {
        message: message.into(),
    };
    assert_eq!(
        failure(client(None, true).on_frame(error("old"))),
        "server rejected protocol: old"
    );
    for frame in [Frame::Hello { version: 2 }, Frame::Goodbye] {
        assert_eq!(
            failure(client(None, true).on_frame(frame)),
            "server sent an invalid Hello response"
        );
    }
    let mut session = client(None, true);
    session.on_frame(Frame::Hello { version: 1 });
    assert_eq!(
        failure(session.on_frame(Frame::AuthRejected)),
        "server rejected token"
    );
    let mut session = client(None, true);
    session.on_frame(Frame::Hello { version: 1 });
    assert_eq!(
        failure(session.on_frame(Frame::Goodbye)),
        "server sent an invalid auth response"
    );
    for (frame, text) in [
        (error("taken"), "server rejected service: taken"),
        (
            Frame::Goodbye,
            "server sent an invalid service registration response",
        ),
    ] {
        let mut session = client(Some(published_service()), true);
        session.on_frame(Frame::Hello { version: 1 });
        session.on_frame(Frame::AuthAccepted {
            kind: TokenKind::User,
        });
        assert_eq!(failure(session.on_frame(frame)), text);
    }
    assert_eq!(
        ClientError::InvalidHeartbeatAck.message(),
        "server sent an invalid heartbeat acknowledgement"
    );
    assert_eq!(
        ClientError::SessionEnded.message(),
        "relay session has ended"
    );
}

#[test]
fn clients_print_where_services_are_reached() {
    let mut service = published_service();
    assert_eq!(
        published_line(&service),
        "published service=ssh endpoint=unassigned"
    );
    service.public_host = Some("ssh.relay.test".into());
    assert_eq!(
        published_line(&service),
        "published service=ssh endpoint=ssh.relay.test"
    );
    assert_eq!(
        connected_line(TransportKind::TcpTlsYamux, NodeId(2), 10),
        "connected transport=tcp-tls-yamux \
            node_id=00000000-0000-0000-0000-000000000002 heartbeat=10"
    );
}

#[test]
fn clients_wait_longer_after_each_failure() {
    let delays: Vec<u64> = (1..8).map(base_delay_seconds).collect();
    assert_eq!(delays, [2, 4, 8, 16, 32, 32, 32]);
    assert_eq!(
        retry_with(Some("lost"), false, 0, 0),
        RetryStep::Retry {
            attempt: 1,
            seconds: 2
        }
    );
    assert_eq!(
        retry_with(Some("lost"), false, u32::MAX, 10),
        RetryStep::Retry {
            attempt: u32::MAX,
            seconds: 42
        }
    );
    assert_eq!(retry_with(None, false, 3, 0), RetryStep::Done);
    assert_eq!(retry_with(Some("lost"), true, 3, 0), RetryStep::GiveUp);
    let mut attempt = 0;
    let mut seen = Vec::new();
    for _ in 0..200 {
        let RetryStep::Retry {
            attempt: next,
            seconds,
        } = after_connection(Some("lost"), false, attempt)
        else {
            panic!("the client tries again");
        };
        let base = base_delay_seconds(next);
        assert!(base <= seconds && seconds <= base + base / 3);
        assert_eq!(next, attempt + 1);
        attempt = next;
        seen.push(seconds);
    }
    seen.sort();
    seen.dedup();
    assert!(seen.len() > 6);
}

#[test]
fn refused_tokens_are_not_tried_again() {
    assert!(is_authentication_error("server rejected token"));
    assert!(is_authentication_error("client authentication rejected"));
    assert!(!is_authentication_error("connection lost"));
    assert_eq!(
        after_connection(Some("server rejected token"), false, 1),
        RetryStep::GiveUp
    );
}

#[test]
fn the_fallback_has_its_own_address_or_that_of_quic() {
    let mut endpoints = RelayEndpoints {
        quic: address("203.0.113.10:443"),
        tcp_tls: None,
    };
    assert_eq!(endpoints.fallback().text, "203.0.113.10:443");
    endpoints.tcp_tls = Some(address("203.0.113.10:8443"));
    assert_eq!(endpoints.fallback().text, "203.0.113.10:8443");
    assert_eq!(endpoints.after_quic(QuicOutcome::Completed), None);
    for outcome in [QuicOutcome::Failed, QuicOutcome::TimedOut] {
        assert_eq!(
            endpoints.after_quic(outcome),
            Some(&address("203.0.113.10:8443"))
        );
    }
}

#[test]
fn the_directory_is_read_over_http() {
    assert_eq!(
        services_url("http://127.0.0.1:8080/ignored?x=1"),
        Ok("http://127.0.0.1:8080/v1/services".into())
    );
    for (server, error, text) in [
        (
            "http://bad host",
            ServerUrlError::NotAbsolute,
            "server must be an absolute HTTP URL",
        ),
        (
            "relay.test",
            ServerUrlError::NoScheme,
            "server URL needs a scheme",
        ),
        (
            "https://relay.test",
            ServerUrlError::NotHttp,
            "only http:// control API is available during this development phase",
        ),
    ] {
        assert_eq!(services_url(server), Err(error));
        assert_eq!(error.message(), text);
    }
    let parts = UriParts {
        scheme: Some("http".into()),
        authority: None,
    };
    assert_eq!(
        services_url_of(Some(parts)),
        Err(ServerUrlError::NoAuthority)
    );
    assert_eq!(
        ServerUrlError::NoAuthority.message(),
        "server URL needs an authority"
    );
    assert_eq!(services_url_of(None), Err(ServerUrlError::NotAbsolute));
    assert_eq!(bearer_value("t"), "Bearer t");
    assert_eq!(services_answer(200, "200 OK", "[]"), Ok("[]".into()));
    assert_eq!(
        services_answer(401, "401 Unauthorized", "no"),
        Err("server returned 401 Unauthorized: no".into())
    );
    assert!(services_answer(299, "299", "").is_ok());
    assert!(services_answer(300, "300", "").is_err());
}
