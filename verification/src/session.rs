//! The control session of one client, as the relay sees it.

use vstd::prelude::*;
use vstd::utf8::encode_utf8;
use crate::codec::PROTOCOL_VERSION;
use crate::frame::{error_frame, Frame, FrameModel};
use crate::ids::{is_version_7, NodeId, ServiceId, TunnelId};
use crate::metadata::{
    fault_text, metadata_fault, valid_service_name, ValidationError, ValidationFault,
};
use crate::model::{
    HeartbeatSnapshot, NodeMetadataModel, NodeMetric, NodeModel, NodeRecord, NodeStatus, Protocol,
    ServiceDefinition, ServiceModel, TokenKind, TransportKind,
};
use crate::relay::{
    after_listening, consistent, directory_in_order, is_reachable,
    law_http_service_is_below_the_domain, law_published_as_asked, law_registration_keeps_order,
    law_removal_keeps_order, law_tcp_service_is_at_the_relay, owns_service, register_service,
    register_text, registration, settle_publication, unregister_service, well_addressed,
    with_service, RegisterFault,
};
use crate::state::{
    activate_session, after_session, end_session, identity_accepted, sessions_online,
    validate_node_identity, ActiveSession, AppState, StateModel,
};
use crate::text::decimal_text;
use crate::token::{blake3_digest, hash_token, token_hash};

verus! {

/// The longest round trip that is recorded, in milliseconds.
pub const MAX_RTT_MS: i64 = 3_600_000;

/// The time between sending and recording, held between nothing and the
/// longest round trip.
pub open spec fn round_trip(recorded: i64, sent: i64) -> u32 {
    if recorded - sent < 0 {
        0
    } else if recorded - sent > MAX_RTT_MS {
        MAX_RTT_MS as u32
    } else {
        (recorded - sent) as u32
    }
}

/// The time between sending and recording, held between nothing and the
/// longest round trip.
pub fn round_trip_ms(recorded: i64, sent: i64) -> (r: u32)
    ensures
        r == round_trip(recorded, sent),
{
    let passed: i128 = recorded as i128 - sent as i128;
    if passed < 0 {
        0
    } else if passed > MAX_RTT_MS as i128 {
        MAX_RTT_MS as u32
    } else {
        passed as u32
    }
}

/// A node after a heartbeat.
pub open spec fn heartbeat_seen(node: NodeModel, now: i64, sent: i64) -> NodeModel {
    NodeModel {
        status: NodeStatus::Online,
        last_heartbeat_at_unix_ms: Some(now),
        rtt_ms: Some(round_trip(now, sent)),
        ..node
    }
}

/// What is stored of a heartbeat.
pub open spec fn heartbeat_metric(node_id: NodeId, snapshot: HeartbeatSnapshot, now: i64) -> NodeMetric {
    NodeMetric {
        node_id,
        recorded_at_unix_ms: now,
        rtt_ms: Some(round_trip(now, snapshot.sent_at_unix_ms)),
        snapshot,
    }
}

/// The state after a heartbeat. One of a node that is not known changes nothing.
pub open spec fn after_heartbeat(
    state: StateModel,
    node_id: NodeId,
    snapshot: HeartbeatSnapshot,
    now: i64,
) -> StateModel {
    if state.nodes.contains_key(node_id.0) {
        StateModel {
            nodes: state.nodes.insert(
                node_id.0,
                heartbeat_seen(state.nodes[node_id.0], now, snapshot.sent_at_unix_ms),
            ),
            ..state
        }
    } else {
        state
    }
}

/// Notes a heartbeat of a node, and hands back its record and the metric, which
/// are to be stored.
pub fn record_heartbeat(
    node_id: NodeId,
    snapshot: HeartbeatSnapshot,
    now: i64,
    state: &mut AppState,
) -> (r: Option<(NodeRecord, NodeMetric)>)
    ensures
        final(state)@ == after_heartbeat(old(state)@, node_id, snapshot, now),
        match r {
            Some((node, metric)) => {
                &&& old(state)@.nodes.contains_key(node_id.0)
                &&& node@ == final(state)@.nodes[node_id.0]
                &&& metric == heartbeat_metric(node_id, snapshot, now)
            },
            None => !old(state)@.nodes.contains_key(node_id.0),
        },
{
    let rtt_ms: u32 = round_trip_ms(now, snapshot.sent_at_unix_ms);
    let updated = match state.node(node_id.0) {
        Some(node) => {
            let mut node = node.clone();
            node.status = NodeStatus::Online;
            node.last_heartbeat_at_unix_ms = Some(now);
            node.rtt_ms = Some(rtt_ms);
            node
        },
        None => return None,
    };
    state.set_node(node_id.0, updated.clone());
    let metric = NodeMetric {
        node_id,
        recorded_at_unix_ms: now,
        rtt_ms: Some(rtt_ms),
        snapshot,
    };
    Some((updated, metric))
}

/// The kind of the token, if it is in force.
pub open spec fn token_kind_of(state: StateModel, token: Seq<char>) -> Option<TokenKind> {
    state.tokens.authenticated(token_hash(token))
}

/// The kind of the token, if it is in force.
pub fn authenticate_token(token: &str, state: &AppState) -> (r: Option<TokenKind>)
    ensures
        r == token_kind_of(state@, token@),
{
    state.tokens.authenticate(hash_token(token))
}

/// How far a control session has come.
#[derive(Clone, Copy, Debug, PartialEq, Eq, Structural)]
pub enum SessionPhase {
    AwaitHello,
    AwaitAuth,
    Active { kind: TokenKind, node_id: NodeId, registered: bool },
    Ended { node: Option<NodeId> },
}

/// A control session and where its client connects from.
#[derive(Debug)]
pub struct ServerSession {
    pub phase: SessionPhase,
    pub session_id: TunnelId,
    pub connection: u64,
    pub transport: TransportKind,
    pub public_ip: String,
    pub source_port: u16,
}

/// `ServerSession` in mathematical terms.
#[verifier::ext_equal]
pub struct SessionModel {
    pub phase: SessionPhase,
    pub session_id: TunnelId,
    pub connection: u64,
    pub transport: TransportKind,
    pub public_ip: Seq<char>,
    pub source_port: u16,
}

impl View for ServerSession {
    type V = SessionModel;

    open spec fn view(&self) -> SessionModel {
        SessionModel {
            phase: self.phase,
            session_id: self.session_id,
            connection: self.connection,
            transport: self.transport,
            public_ip: self.public_ip@,
            source_port: self.source_port,
        }
    }
}

/// Why a control session fails.
#[derive(Debug, PartialEq, Eq)]
pub enum SessionError {
    UnsupportedVersion,
    ExpectedHello,
    ExpectedAuth,
    AuthenticationRejected,
    InvalidMetadata(ValidationError),
    IdentityMismatch,
}

/// `SessionError` with its texts as sequences of characters.
pub enum SessionFault {
    UnsupportedVersion,
    ExpectedHello,
    ExpectedAuth,
    AuthenticationRejected,
    InvalidMetadata(ValidationFault),
    IdentityMismatch,
}

impl View for SessionError {
    type V = SessionFault;

    open spec fn view(&self) -> SessionFault {
        match self {
            SessionError::UnsupportedVersion => SessionFault::UnsupportedVersion,
            SessionError::ExpectedHello => SessionFault::ExpectedHello,
            SessionError::ExpectedAuth => SessionFault::ExpectedAuth,
            SessionError::AuthenticationRejected => SessionFault::AuthenticationRejected,
            SessionError::InvalidMetadata(error) => SessionFault::InvalidMetadata(error@),
            SessionError::IdentityMismatch => SessionFault::IdentityMismatch,
        }
    }
}

impl SessionError {
    /// The error as a text for people.
    pub fn message(&self) -> (r: String)
        ensures
            r@ == match self@ {
                SessionFault::UnsupportedVersion => "unsupported protocol version"@,
                SessionFault::ExpectedHello => "expected Hello as first control frame"@,
                SessionFault::ExpectedAuth => "expected Auth after Hello"@,
                SessionFault::AuthenticationRejected => "client authentication rejected"@,
                SessionFault::InvalidMetadata(fault) => fault_text(fault),
                SessionFault::IdentityMismatch =>
                    "node public key does not match persisted identity"@,
            },
    {
        match self {
            SessionError::UnsupportedVersion => "unsupported protocol version".to_owned(),
            SessionError::ExpectedHello => "expected Hello as first control frame".to_owned(),
            SessionError::ExpectedAuth => "expected Auth after Hello".to_owned(),
            SessionError::AuthenticationRejected => "client authentication rejected".to_owned(),
            SessionError::InvalidMetadata(error) => error.message(),
            SessionError::IdentityMismatch =>
                "node public key does not match persisted identity".to_owned(),
        }
    }
}

/// What is to be done after a message of the client.
#[derive(Debug)]
pub enum SessionStep {
    /// Send the message.
    Reply(Frame),
    /// Send the message, then end the session with the error.
    ReplyAndFail(Frame, SessionError),
    /// End the session with the error.
    Fail(SessionError),
    /// Close the connection that the node had before, and store its record.
    NodeRegistered { node: NodeRecord, close: Option<u64> },
    /// Store the service, listen on its port if it has one, then do what
    /// `finish_publication` makes of the outcome; where it cannot be stored, send
    /// what `publish_reply` makes of the failure.
    ServicePublished(ServiceDefinition),
    /// Delete the service from the store and stop listening on its port.
    ServiceRemoved(ServiceId),
    /// Store what there is, then send what `heartbeat_ack` makes.
    HeartbeatRecorded { stored: Option<(NodeRecord, NodeMetric)>, sequence: u64 },
    /// Nothing.
    Nothing,
    /// End the session.
    Finish,
}

/// `SessionStep` in mathematical terms.
pub enum StepModel {
    Reply(FrameModel),
    ReplyAndFail(FrameModel, SessionFault),
    Fail(SessionFault),
    NodeRegistered { node: NodeModel, close: Option<u64> },
    ServicePublished(ServiceModel),
    ServiceRemoved(ServiceId),
    HeartbeatRecorded { stored: Option<(NodeModel, NodeMetric)>, sequence: u64 },
    Nothing,
    Finish,
}

impl View for SessionStep {
    type V = StepModel;

    open spec fn view(&self) -> StepModel {
        match *self {
            SessionStep::Reply(frame) => StepModel::Reply(frame@),
            SessionStep::ReplyAndFail(frame, error) => StepModel::ReplyAndFail(frame@, error@),
            SessionStep::Fail(error) => StepModel::Fail(error@),
            SessionStep::NodeRegistered { node, close } => StepModel::NodeRegistered {
                node: node@,
                close,
            },
            SessionStep::ServicePublished(service) => StepModel::ServicePublished(service@),
            SessionStep::ServiceRemoved(id) => StepModel::ServiceRemoved(id),
            SessionStep::HeartbeatRecorded { stored, sequence } => StepModel::HeartbeatRecorded {
                stored: match stored {
                    Some((node, metric)) => Some((node@, metric)),
                    None => None,
                },
                sequence,
            },
            SessionStep::Nothing => StepModel::Nothing,
            SessionStep::Finish => StepModel::Finish,
        }
    }
}

/// The record of a node that registers.
pub open spec fn registered_node(
    session: SessionModel,
    node_id: NodeId,
    metadata: NodeMetadataModel,
    public_key: Seq<u8>,
    now: i64,
) -> NodeModel {
    NodeModel {
        node_id,
        public_key: Some(public_key),
        metadata,
        public_ip: session.public_ip,
        source_port: session.source_port,
        transport: session.transport,
        status: NodeStatus::Online,
        connected_at_unix_ms: now,
        last_heartbeat_at_unix_ms: None,
        rtt_ms: None,
    }
}

/// The state after a node has registered over a session.
pub open spec fn with_node(
    state: StateModel,
    session: SessionModel,
    kind: TokenKind,
    node: NodeModel,
) -> StateModel {
    let active = ActiveSession {
        id: session.session_id,
        token_kind: kind,
        connection: session.connection,
    };
    StateModel {
        sessions: state.sessions.insert(node.node_id.0, active),
        nodes: state.nodes.insert(node.node_id.0, node),
        ..state
    }
}

/// A session, the relay and what is to be done after a message.
pub struct Outcome {
    pub phase: SessionPhase,
    pub state: StateModel,
    pub step: StepModel,
}

/// What a message leads to in an authenticated session.
pub open spec fn active_outcome(
    session: SessionModel,
    kind: TokenKind,
    node_id: NodeId,
    registered: bool,
    state: StateModel,
    frame: FrameModel,
    now: i64,
) -> Outcome {
    let failed = SessionPhase::Ended { node: Some(node_id) };
    match frame {
        FrameModel::RegisterNode { metadata, public_key } => if metadata_fault(
            metadata.metadata,
        ) is Some {
            Outcome {
                phase: failed,
                state,
                step: StepModel::Fail(
                    SessionFault::InvalidMetadata(metadata_fault(metadata.metadata)->0),
                ),
            }
        } else if !identity_accepted(state.nodes, node_id, public_key) {
            Outcome { phase: failed, state, step: StepModel::Fail(SessionFault::IdentityMismatch) }
        } else {
            let node = registered_node(session, node_id, metadata, public_key, now);
            Outcome {
                phase: SessionPhase::Active { kind, node_id, registered: true },
                state: with_node(state, session, kind, node),
                step: StepModel::NodeRegistered {
                    node,
                    close: if state.sessions.contains_key(node_id.0) {
                        Some(state.sessions[node_id.0].connection)
                    } else {
                        None
                    },
                },
            }
        },
        FrameModel::RegisterService { service } => if !registered || service.node_id != node_id {
            Outcome {
                phase: session.phase,
                state,
                step: StepModel::Reply(
                    FrameModel::Error {
                        message: "node must be registered before publishing services"@,
                    },
                ),
            }
        } else {
            match registration(state, service, node_id) {
                Ok(published) => Outcome {
                    phase: session.phase,
                    state: with_service(state, published),
                    step: StepModel::ServicePublished(published),
                },
                Err(fault) => Outcome {
                    phase: session.phase,
                    state,
                    step: StepModel::Reply(FrameModel::Error { message: register_text(fault) }),
                },
            }
        },
        FrameModel::UnregisterService { service_id } => if owns_service(
            state,
            service_id,
            node_id,
        ) {
            Outcome {
                phase: session.phase,
                state: StateModel { services: state.services.remove(service_id.0), ..state },
                step: StepModel::ServiceRemoved(service_id),
            }
        } else {
            Outcome { phase: session.phase, state, step: StepModel::Nothing }
        },
        FrameModel::Heartbeat { snapshot } => {
            let after = after_heartbeat(state, node_id, snapshot, now);
            Outcome {
                phase: session.phase,
                state: after,
                step: StepModel::HeartbeatRecorded {
                    stored: if state.nodes.contains_key(node_id.0) {
                        Some(
                            (after.nodes[node_id.0], heartbeat_metric(node_id, snapshot, now)),
                        )
                    } else {
                        None
                    },
                    sequence: snapshot.sequence,
                },
            }
        },
        FrameModel::Goodbye => Outcome { phase: failed, state, step: StepModel::Finish },
        _ => Outcome {
            phase: session.phase,
            state,
            step: StepModel::Reply(FrameModel::Error { message: "unsupported control frame"@ }),
        },
    }
}

/// What a message of the client leads to.
pub open spec fn outcome(
    session: SessionModel,
    state: StateModel,
    frame: FrameModel,
    now: i64,
) -> Outcome {
    let ended = SessionPhase::Ended { node: None };
    match session.phase {
        SessionPhase::AwaitHello => match frame {
            FrameModel::Hello { version } => if version == PROTOCOL_VERSION {
                Outcome {
                    phase: SessionPhase::AwaitAuth,
                    state,
                    step: StepModel::Reply(FrameModel::Hello { version: PROTOCOL_VERSION }),
                }
            } else {
                Outcome {
                    phase: ended,
                    state,
                    step: StepModel::ReplyAndFail(
                        FrameModel::Error { message: "unsupported protocol version"@ },
                        SessionFault::UnsupportedVersion,
                    ),
                }
            },
            _ => Outcome { phase: ended, state, step: StepModel::Fail(SessionFault::ExpectedHello) },
        },
        SessionPhase::AwaitAuth => match frame {
            FrameModel::Auth { token, node_id } => match token_kind_of(state, token) {
                Some(kind) => Outcome {
                    phase: SessionPhase::Active { kind, node_id, registered: false },
                    state,
                    step: StepModel::Reply(FrameModel::AuthAccepted { kind }),
                },
                None => Outcome {
                    phase: ended,
                    state,
                    step: StepModel::ReplyAndFail(
                        FrameModel::AuthRejected,
                        SessionFault::AuthenticationRejected,
                    ),
                },
            },
            _ => Outcome { phase: ended, state, step: StepModel::Fail(SessionFault::ExpectedAuth) },
        },
        SessionPhase::Active { kind, node_id, registered } => active_outcome(
            session,
            kind,
            node_id,
            registered,
            state,
            frame,
            now,
        ),
        SessionPhase::Ended { .. } => Outcome {
            phase: session.phase,
            state,
            step: StepModel::Finish,
        },
    }
}

impl ServerSession {
    /// A session of a client that has just connected.
    pub fn new(
        connection: u64,
        transport: TransportKind,
        public_ip: String,
        source_port: u16,
    ) -> (r: Self)
        ensures
            r.phase == SessionPhase::AwaitHello,
            is_version_7(r.session_id.0),
            r.connection == connection,
            r.transport == transport,
            r.public_ip@ == public_ip@,
            r.source_port == source_port,
    {
        ServerSession {
            phase: SessionPhase::AwaitHello,
            session_id: TunnelId::new(),
            connection,
            transport,
            public_ip,
            source_port,
        }
    }

    /// Takes a message of the client: changes the relay accordingly and says
    /// what is to be done.
    pub fn on_frame(&mut self, frame: Frame, now: i64, state: &mut AppState) -> (r: SessionStep)
        ensures
            ({
                let out = outcome(old(self)@, old(state)@, frame@, now);
                &&& final(self)@ == SessionModel { phase: out.phase, ..old(self)@ }
                &&& final(state)@ == out.state
                &&& r@ == out.step
            }),
    {
        match self.phase {
            SessionPhase::AwaitHello => match frame {
                Frame::Hello { version } => if version == PROTOCOL_VERSION {
                    self.phase = SessionPhase::AwaitAuth;
                    SessionStep::Reply(Frame::Hello { version: PROTOCOL_VERSION })
                } else {
                    self.phase = SessionPhase::Ended { node: None };
                    SessionStep::ReplyAndFail(
                        error_frame("unsupported protocol version"),
                        SessionError::UnsupportedVersion,
                    )
                },
                _ => {
                    self.phase = SessionPhase::Ended { node: None };
                    SessionStep::Fail(SessionError::ExpectedHello)
                },
            },
            SessionPhase::AwaitAuth => match frame {
                Frame::Auth { token, node_id } => match authenticate_token(token.as_str(), state) {
                    Some(kind) => {
                        self.phase = SessionPhase::Active { kind, node_id, registered: false };
                        SessionStep::Reply(Frame::AuthAccepted { kind })
                    },
                    None => {
                        self.phase = SessionPhase::Ended { node: None };
                        SessionStep::ReplyAndFail(
                            Frame::AuthRejected,
                            SessionError::AuthenticationRejected,
                        )
                    },
                },
                _ => {
                    self.phase = SessionPhase::Ended { node: None };
                    SessionStep::Fail(SessionError::ExpectedAuth)
                },
            },
            SessionPhase::Active { kind, node_id, registered } => self.on_active_frame(
                kind,
                node_id,
                registered,
                frame,
                now,
                state,
            ),
            SessionPhase::Ended { .. } => SessionStep::Finish,
        }
    }

    fn on_active_frame(
        &mut self,
        kind: TokenKind,
        node_id: NodeId,
        registered: bool,
        frame: Frame,
        now: i64,
        state: &mut AppState,
    ) -> (r: SessionStep)
        requires
            old(self).phase == (SessionPhase::Active { kind, node_id, registered }),
        ensures
            ({
                let out = active_outcome(
                    old(self)@,
                    kind,
                    node_id,
                    registered,
                    old(state)@,
                    frame@,
                    now,
                );
                &&& final(self)@ == SessionModel { phase: out.phase, ..old(self)@ }
                &&& final(state)@ == out.state
                &&& r@ == out.step
            }),
    {
        match frame {
            Frame::RegisterNode { metadata, public_key } => {
                if let Err(error) = metadata.metadata.validate() {
                    self.phase = SessionPhase::Ended { node: Some(node_id) };
                    return SessionStep::Fail(SessionError::InvalidMetadata(error));
                }
                if validate_node_identity(node_id, &public_key, state).is_err() {
                    self.phase = SessionPhase::Ended { node: Some(node_id) };
                    return SessionStep::Fail(SessionError::IdentityMismatch);
                }
                let close = activate_session(
                    node_id,
                    self.session_id,
                    kind,
                    self.connection,
                    state,
                );
                let node = NodeRecord {
                    node_id,
                    public_key: Some(public_key),
                    metadata,
                    public_ip: self.public_ip.clone(),
                    source_port: self.source_port,
                    transport: self.transport,
                    status: NodeStatus::Online,
                    connected_at_unix_ms: now,
                    last_heartbeat_at_unix_ms: None,
                    rtt_ms: None,
                };
                state.set_node(node_id.0, node.clone());
                self.phase = SessionPhase::Active { kind, node_id, registered: true };
                SessionStep::NodeRegistered { node, close }
            },
            Frame::RegisterService { service } => {
                if !registered || service.node_id != node_id {
                    return SessionStep::Reply(
                        error_frame("node must be registered before publishing services"),
                    );
                }
                match register_service(state, service, node_id) {
                    Ok(published) => SessionStep::ServicePublished(published),
                    Err(error) => {
                        let message = error.message();
                        SessionStep::Reply(error_frame(message.as_str()))
                    },
                }
            },
            Frame::UnregisterService { service_id } => {
                if unregister_service(service_id, node_id, state) {
                    SessionStep::ServiceRemoved(service_id)
                } else {
                    SessionStep::Nothing
                }
            },
            Frame::Heartbeat { snapshot } => {
                let stored = record_heartbeat(node_id, snapshot, now, state);
                SessionStep::HeartbeatRecorded { stored, sequence: snapshot.sequence }
            },
            Frame::Goodbye => {
                self.phase = SessionPhase::Ended { node: Some(node_id) };
                SessionStep::Finish
            },
            _ => SessionStep::Reply(error_frame("unsupported control frame")),
        }
    }

    /// Ends the session, whatever it ended of: the node goes offline unless it
    /// has another session by now. The record that is handed back is to be
    /// stored.
    pub fn finish(&mut self, state: &mut AppState) -> (r: Option<NodeRecord>)
        ensures
            ({
                let node_id = session_node(old(self).phase);
                &&& final(self)@ == SessionModel {
                    phase: SessionPhase::Ended { node: node_id },
                    ..old(self)@
                }
                &&& match node_id {
                    Some(node_id) => {
                        &&& final(state)@ == after_session(
                            old(state)@,
                            node_id,
                            old(self).session_id,
                        )
                        &&& r is Some <==> {
                            &&& old(state)@.sessions.contains_key(node_id.0)
                            &&& old(state)@.sessions[node_id.0].id == old(self).session_id
                            &&& old(state)@.nodes.contains_key(node_id.0)
                        }
                        &&& r matches Some(node) ==> node@ == final(state)@.nodes[node_id.0]
                    },
                    None => final(state)@ == old(state)@ && r is None,
                }
            }),
    {
        let node_id = match self.phase {
            SessionPhase::Active { node_id, .. } => Some(node_id),
            SessionPhase::Ended { node } => node,
            _ => None,
        };
        self.phase = SessionPhase::Ended { node: node_id };
        match node_id {
            Some(node_id) => end_session(node_id, self.session_id, state),
            None => None,
        }
    }
}

/// The node that has authenticated over a session.
pub open spec fn session_node(phase: SessionPhase) -> Option<NodeId> {
    match phase {
        SessionPhase::Active { node_id, .. } => Some(node_id),
        SessionPhase::Ended { node } => node,
        _ => None,
    }
}

/// The answer to a registration: the service as it is published, or why it is
/// not.
pub fn publish_reply(published: Result<ServiceDefinition, String>) -> (r: Frame)
    ensures
        r@ == match published {
            Ok(service) => FrameModel::RegisterServiceAccepted { service: service@ },
            Err(message) => FrameModel::Error { message: message@ },
        },
{
    match published {
        Ok(service) => Frame::RegisterServiceAccepted { service },
        Err(message) => Frame::Error { message },
    }
}

/// Ends the publication of a service that is stored, given whether its public
/// port is listened on, and gives the answer. A TCP service without a listener
/// is taken out of the directory again; it is handed back as the one to delete
/// from the store.
pub fn finish_publication(service: ServiceDefinition, listening: bool, state: &mut AppState) -> (r:
    (Frame, Option<ServiceId>))
    ensures
        final(state)@ == after_listening(old(state)@, service@, listening),
        r.0@ == (if is_reachable(service@, listening) {
            FrameModel::RegisterServiceAccepted { service: service@ }
        } else {
            FrameModel::Error { message: "failed to activate TCP relay port"@ }
        }),
        r.1 == (if is_reachable(service@, listening) {
            None
        } else {
            Some(service@.service_id)
        }),
{
    match settle_publication(service, listening, state) {
        Ok(published) => (publish_reply(Ok(published)), None),
        Err(error) => (publish_reply(Err(error.message())), Some(error.service_id)),
    }
}

/// The answer to a heartbeat.
pub fn heartbeat_ack(sequence: u64, now: i64) -> (r: Frame)
    ensures
        r@ == (FrameModel::HeartbeatAck { sequence, server_time_unix_ms: now }),
{
    Frame::HeartbeatAck { sequence, server_time_unix_ms: now }
}

/// Until a token has been accepted, and after the session has ended, no message
/// changes anything in the relay.
pub proof fn law_only_authenticated_sessions_act(
    session: SessionModel,
    state: StateModel,
    frame: FrameModel,
    now: i64,
)
    requires
        !(session.phase is Active),
    ensures
        outcome(session, state, frame, now).state == state,
        session.phase is Ended ==> outcome(session, state, frame, now).phase == session.phase,
{
}

/// A token that is not in force is answered with a rejection, and the session
/// is over.
pub proof fn law_refused_token(
    session: SessionModel,
    state: StateModel,
    token: Seq<char>,
    node_id: NodeId,
    now: i64,
)
    requires
        session.phase == SessionPhase::AwaitAuth,
        token_kind_of(state, token) is None,
    ensures
        ({
            let out = outcome(session, state, FrameModel::Auth { token, node_id }, now);
            &&& out.step == StepModel::ReplyAndFail(
                FrameModel::AuthRejected,
                SessionFault::AuthenticationRejected,
            )
            &&& out.phase == SessionPhase::Ended { node: None }
            &&& out.state == state
        }),
{
}

/// Whatever a client sends, the services of the directory get along, and the
/// directory stays in order.
pub proof fn law_session_keeps_directory(
    session: SessionModel,
    state: StateModel,
    frame: FrameModel,
    now: i64,
)
    requires
        consistent(state.services),
    ensures
        consistent(outcome(session, state, frame, now).state.services),
        directory_in_order(state) ==> directory_in_order(outcome(session, state, frame, now).state),
{
    let after = outcome(session, state, frame, now).state;
    if let SessionPhase::Active { kind, node_id, registered } = session.phase {
        match frame {
            FrameModel::RegisterService { service } => {
                if registered && service.node_id == node_id && registration(
                    state,
                    service,
                    node_id,
                ) is Ok {
                    law_registration_keeps_order(state, service, node_id);
                }
            },
            FrameModel::UnregisterService { service_id } => {
                law_removal_keeps_order(state, service_id.0);
            },
            _ => {
                lemma_same_directory(state, after);
            },
        }
    }
}

/// The order of the directory depends on the services and the relay's settings
/// alone.
proof fn lemma_same_directory(state: StateModel, after: StateModel)
    requires
        after.services == state.services,
        after.public_host == state.public_host,
        after.tcp_port_start == state.tcp_port_start,
        after.tcp_port_end == state.tcp_port_end,
        after.http_domain == state.http_domain,
    ensures
        directory_in_order(state) ==> directory_in_order(after),
{
    if directory_in_order(state) {
        assert forall|k: u128| #[trigger] after.services.contains_key(k) implies well_addressed(
            after,
            after.services[k],
        ) by {
            assert(well_addressed(state, state.services[k]));
        }
    }
}

/// A session that publishes services only does so for a node that it has
/// registered: before that the directory gains and changes nothing.
pub proof fn law_registration_comes_first(
    session: SessionModel,
    kind: TokenKind,
    node_id: NodeId,
    state: StateModel,
    service: ServiceModel,
    now: i64,
)
    requires
        session.phase == (SessionPhase::Active { kind, node_id, registered: false }),
    ensures
        ({
            let out = outcome(session, state, FrameModel::RegisterService { service }, now);
            &&& out.state == state
            &&& out.step == StepModel::Reply(
                FrameModel::Error {
                    message: "node must be registered before publishing services"@,
                },
            )
        }),
{
}

/// A node that registers over a new session takes over from its earlier one:
/// the earlier connection is closed, and its end no longer takes the node
/// offline.
pub proof fn law_new_session_supersedes(
    earlier: TunnelId,
    session: SessionModel,
    kind: TokenKind,
    node_id: NodeId,
    registered: bool,
    state: StateModel,
    metadata: NodeMetadataModel,
    public_key: Seq<u8>,
    now: i64,
)
    requires
        session.phase == (SessionPhase::Active { kind, node_id, registered }),
        state.sessions.contains_key(node_id.0),
        state.sessions[node_id.0].id == earlier,
        earlier != session.session_id,
        metadata_fault(metadata.metadata) is None,
        identity_accepted(state.nodes, node_id, public_key),
    ensures
        ({
            let out = outcome(
                session,
                state,
                FrameModel::RegisterNode { metadata, public_key },
                now,
            );
            &&& out.step is NodeRegistered
            &&& out.step->close == Some(state.sessions[node_id.0].connection)
            &&& after_session(out.state, node_id, earlier) == out.state
            &&& out.state.nodes[node_id.0].status == NodeStatus::Online
        }),
{
}

/// Whatever a client sends, every node that holds a session is known and
/// online.
pub proof fn law_session_keeps_sessions_online(
    session: SessionModel,
    state: StateModel,
    frame: FrameModel,
    now: i64,
)
    requires
        sessions_online(state),
    ensures
        sessions_online(outcome(session, state, frame, now).state),
{
    let after = outcome(session, state, frame, now).state;
    assert forall|k: u128| #[trigger] after.sessions.contains_key(k) implies after.nodes.contains_key(
        k,
    ) && after.nodes[k].status == NodeStatus::Online by {
        if state.sessions.contains_key(k) {
            assert(state.nodes.contains_key(k));
        }
    }
}

/// A client is greeted if it speaks version 1 of the protocol, and sent away if
/// it speaks another.
pub proof fn law_greeting(session: SessionModel, state: StateModel, version: u16, now: i64)
    requires
        session.phase == SessionPhase::AwaitHello,
    ensures
        ({
            let out = outcome(session, state, FrameModel::Hello { version }, now);
            &&& out.state == state
            &&& version == 1 ==> {
                &&& out.step == StepModel::Reply(FrameModel::Hello { version: 1 })
                &&& out.phase == SessionPhase::AwaitAuth
            }
            &&& version != 1 ==> {
                &&& out.step == StepModel::ReplyAndFail(
                    FrameModel::Error { message: "unsupported protocol version"@ },
                    SessionFault::UnsupportedVersion,
                )
                &&& out.phase == SessionPhase::Ended { node: None }
            }
        }),
{
}

/// A session begins with a greeting and goes on with a token; any other message
/// in their place ends it without an answer.
pub proof fn law_messages_come_in_order(
    session: SessionModel,
    state: StateModel,
    frame: FrameModel,
    now: i64,
)
    ensures
        ({
            let out = outcome(session, state, frame, now);
            &&& session.phase == SessionPhase::AwaitHello && !(frame is Hello) ==> {
                &&& out.step == StepModel::Fail(SessionFault::ExpectedHello)
                &&& out.phase == SessionPhase::Ended { node: None }
                &&& out.state == state
            }
            &&& session.phase == SessionPhase::AwaitAuth && !(frame is Auth) ==> {
                &&& out.step == StepModel::Fail(SessionFault::ExpectedAuth)
                &&& out.phase == SessionPhase::Ended { node: None }
                &&& out.state == state
            }
            &&& session.phase is Ended ==> out.step is Finish
        }),
{
}

/// A token opens a session exactly if its digest is kept: as an admin session
/// if it is the admin token, else as a user session if it is the user token.
pub proof fn law_token_opens_a_session(
    session: SessionModel,
    state: StateModel,
    token: Seq<char>,
    node_id: NodeId,
    now: i64,
)
    requires
        session.phase == SessionPhase::AwaitAuth,
    ensures
        ({
            let out = outcome(session, state, FrameModel::Auth { token, node_id }, now);
            let hash = Some(blake3_digest(encode_utf8(token)));
            &&& out.state == state
            &&& state.tokens.admin_hash == hash ==> {
                &&& out.step == StepModel::Reply(
                    FrameModel::AuthAccepted { kind: TokenKind::Admin },
                )
                &&& out.phase == SessionPhase::Active {
                    kind: TokenKind::Admin,
                    node_id,
                    registered: false,
                }
            }
            &&& state.tokens.admin_hash != hash && state.tokens.user_hash == hash ==> {
                &&& out.step == StepModel::Reply(FrameModel::AuthAccepted { kind: TokenKind::User })
                &&& out.phase == SessionPhase::Active {
                    kind: TokenKind::User,
                    node_id,
                    registered: false,
                }
            }
            &&& state.tokens.admin_hash != hash && state.tokens.user_hash != hash ==> {
                &&& out.step == StepModel::ReplyAndFail(
                    FrameModel::AuthRejected,
                    SessionFault::AuthenticationRejected,
                )
                &&& out.phase == SessionPhase::Ended { node: None }
            }
        }),
{
}

/// A node that registers is recorded as it describes itself, online from now
/// on, at the address that it connects from, and holds the session; nothing
/// else changes.
pub proof fn law_registered_node_is_recorded(
    session: SessionModel,
    kind: TokenKind,
    node_id: NodeId,
    registered: bool,
    state: StateModel,
    metadata: NodeMetadataModel,
    public_key: Seq<u8>,
    now: i64,
    k: u128,
)
    requires
        session.phase == (SessionPhase::Active { kind, node_id, registered }),
        metadata_fault(metadata.metadata) is None,
        state.nodes.contains_key(node_id.0) ==> state.nodes[node_id.0].public_key is None
            || state.nodes[node_id.0].public_key == Some(public_key),
    ensures
        ({
            let out = outcome(
                session,
                state,
                FrameModel::RegisterNode { metadata, public_key },
                now,
            );
            let id = node_id.0;
            let node = out.state.nodes[id];
            &&& out.phase == SessionPhase::Active { kind, node_id, registered: true }
            &&& out.step is NodeRegistered
            &&& out.step->node == node
            &&& out.step->close is Some <==> state.sessions.contains_key(id)
            &&& out.state.nodes.contains_key(id)
            &&& node.node_id == node_id
            &&& node.public_key == Some(public_key)
            &&& node.metadata == metadata
            &&& node.public_ip == session.public_ip
            &&& node.source_port == session.source_port
            &&& node.transport == session.transport
            &&& node.status == NodeStatus::Online
            &&& node.connected_at_unix_ms == now
            &&& node.last_heartbeat_at_unix_ms is None
            &&& node.rtt_ms is None
            &&& out.state.sessions.contains_key(id)
            &&& out.state.sessions[id].id == session.session_id
            &&& out.state.sessions[id].token_kind == kind
            &&& out.state.sessions[id].connection == session.connection
            &&& k != id ==> {
                &&& out.state.nodes.contains_key(k) == state.nodes.contains_key(k)
                &&& state.nodes.contains_key(k) ==> out.state.nodes[k] == state.nodes[k]
                &&& out.state.sessions.contains_key(k) == state.sessions.contains_key(k)
                &&& state.sessions.contains_key(k) ==> out.state.sessions[k] == state.sessions[k]
            }
            &&& out.state == StateModel {
                nodes: out.state.nodes,
                sessions: out.state.sessions,
                ..state
            }
        }),
{
}

/// A node with invalid metadata, or under another key than it is known by, is
/// sent away, and nothing changes.
pub proof fn law_impostor_is_sent_away(
    session: SessionModel,
    kind: TokenKind,
    node_id: NodeId,
    registered: bool,
    state: StateModel,
    metadata: NodeMetadataModel,
    public_key: Seq<u8>,
    now: i64,
)
    requires
        session.phase == (SessionPhase::Active { kind, node_id, registered }),
    ensures
        ({
            let out = outcome(
                session,
                state,
                FrameModel::RegisterNode { metadata, public_key },
                now,
            );
            &&& metadata_fault(metadata.metadata) matches Some(fault) ==> {
                &&& out.step == StepModel::Fail(SessionFault::InvalidMetadata(fault))
                &&& out.phase == SessionPhase::Ended { node: Some(node_id) }
                &&& out.state == state
            }
            &&& metadata_fault(metadata.metadata) is None && state.nodes.contains_key(node_id.0)
                && state.nodes[node_id.0].public_key is Some && state.nodes[node_id.0].public_key
                != Some(public_key) ==> {
                &&& out.step == StepModel::Fail(SessionFault::IdentityMismatch)
                &&& out.phase == SessionPhase::Ended { node: Some(node_id) }
                &&& out.state == state
            }
        }),
{
}

/// A registered node that publishes a service of its own leaves it in the
/// directory with the name, the protocol, the local address and the metadata
/// that it asked for, and nothing else changes; a refused one leaves nothing.
pub proof fn law_published_service_is_in_the_directory(
    session: SessionModel,
    kind: TokenKind,
    node_id: NodeId,
    state: StateModel,
    service: ServiceModel,
    now: i64,
    k: u128,
)
    requires
        session.phase == (SessionPhase::Active { kind, node_id, registered: true }),
        service.node_id == node_id,
    ensures
        ({
            let out = outcome(session, state, FrameModel::RegisterService { service }, now);
            &&& out.phase == session.phase
            &&& match registration(state, service, node_id) {
                Ok(published) => {
                    let id = published.service_id.0;
                    let entry = out.state.services[id];
                    &&& out.step is ServicePublished
                    &&& out.step->ServicePublished_0 == entry
                    &&& out.state.services.contains_key(id)
                    &&& entry.service_id.0 == id
                    &&& entry.service_name == service.service_name
                    &&& entry.node_id == node_id
                    &&& entry.protocol == service.protocol
                    &&& entry.local_address == service.local_address
                    &&& entry.metadata == service.metadata
                    &&& service.protocol == Protocol::Tcp ==> entry.public_host == Some(
                        state.public_host,
                    ) && entry.public_port is Some
                    &&& service.protocol != Protocol::Tcp ==> state.http_domain is Some
                        && entry.public_host == Some(
                        service.service_name + "."@ + state.http_domain->0,
                    ) && entry.public_port is None
                    &&& k != id ==> out.state.services.contains_key(k)
                        == state.services.contains_key(k)
                    &&& k != id && state.services.contains_key(k) ==> out.state.services[k]
                        == state.services[k]
                    &&& out.state == StateModel { services: out.state.services, ..state }
                },
                Err(fault) => {
                    &&& out.state == state
                    &&& out.step == StepModel::Reply(
                        FrameModel::Error { message: register_text(fault) },
                    )
                },
            }
        }),
{
    if registration(state, service, node_id) is Ok {
        law_published_as_asked(state, service, node_id);
        if service.protocol == Protocol::Tcp {
            law_tcp_service_is_at_the_relay(state, service, node_id, k);
        } else {
            law_http_service_is_below_the_domain(state, service, node_id);
        }
    }
}

/// A node that has not registered, or that names another node as the publisher,
/// is told so and publishes nothing.
pub proof fn law_foreign_service_is_refused(
    session: SessionModel,
    kind: TokenKind,
    node_id: NodeId,
    registered: bool,
    state: StateModel,
    service: ServiceModel,
    now: i64,
)
    requires
        session.phase == (SessionPhase::Active { kind, node_id, registered }),
        !registered || service.node_id != node_id,
    ensures
        ({
            let out = outcome(session, state, FrameModel::RegisterService { service }, now);
            &&& out.state == state
            &&& out.phase == session.phase
            &&& out.step == StepModel::Reply(
                FrameModel::Error {
                    message: "node must be registered before publishing services"@,
                },
            )
        }),
{
}

/// A node takes out the service that it names if that is its own, and no other
/// service; of anything but the directory nothing changes.
pub proof fn law_node_removes_its_own_service_only(
    session: SessionModel,
    kind: TokenKind,
    node_id: NodeId,
    registered: bool,
    state: StateModel,
    service_id: ServiceId,
    now: i64,
    k: u128,
)
    requires
        session.phase == (SessionPhase::Active { kind, node_id, registered }),
    ensures
        ({
            let out = outcome(session, state, FrameModel::UnregisterService { service_id }, now);
            let own = state.services.contains_key(service_id.0)
                && state.services[service_id.0].node_id == node_id;
            &&& out.phase == session.phase
            &&& own ==> out.step == StepModel::ServiceRemoved(service_id)
            &&& !own ==> out.step is Nothing && out.state == state
            &&& out.state.services.contains_key(k) <==> state.services.contains_key(k) && !(own && k
                == service_id.0)
            &&& out.state.services.contains_key(k) ==> out.state.services[k] == state.services[k]
            &&& out.state == StateModel { services: out.state.services, ..state }
        }),
{
}

/// A heartbeat marks its node as online and seen now, with the time that it
/// took: none below zero, and an hour at most. The metric says the same of the
/// same node. Nothing else changes, and the number of the heartbeat is what is
/// acknowledged.
pub proof fn law_heartbeat_is_recorded(
    session: SessionModel,
    kind: TokenKind,
    node_id: NodeId,
    registered: bool,
    state: StateModel,
    snapshot: HeartbeatSnapshot,
    now: i64,
    k: u128,
)
    requires
        session.phase == (SessionPhase::Active { kind, node_id, registered }),
    ensures
        ({
            let out = outcome(session, state, FrameModel::Heartbeat { snapshot }, now);
            let id = node_id.0;
            let passed = now - snapshot.sent_at_unix_ms;
            &&& out.phase == session.phase
            &&& out.step is HeartbeatRecorded
            &&& out.step->sequence == snapshot.sequence
            &&& out.step->stored is Some <==> state.nodes.contains_key(id)
            &&& !state.nodes.contains_key(id) ==> out.state == state
            &&& state.nodes.contains_key(id) ==> {
                let node = out.state.nodes[id];
                let (stored, metric) = out.step->stored->0;
                let rtt = node.rtt_ms->0;
                &&& stored == node
                &&& node.status == NodeStatus::Online
                &&& node.last_heartbeat_at_unix_ms == Some(now)
                &&& node.rtt_ms is Some
                &&& passed < 0 ==> rtt == 0
                &&& 0 <= passed <= 3_600_000 ==> rtt == passed
                &&& passed > 3_600_000 ==> rtt == 3_600_000
                &&& node == NodeModel {
                    status: node.status,
                    last_heartbeat_at_unix_ms: node.last_heartbeat_at_unix_ms,
                    rtt_ms: node.rtt_ms,
                    ..state.nodes[id]
                }
                &&& metric.node_id == node_id
                &&& metric.recorded_at_unix_ms == now
                &&& metric.rtt_ms == node.rtt_ms
                &&& metric.snapshot == snapshot
            }
            &&& out.state.nodes.contains_key(k) == state.nodes.contains_key(k)
            &&& k != id && state.nodes.contains_key(k) ==> out.state.nodes[k] == state.nodes[k]
            &&& out.state == StateModel { nodes: out.state.nodes, ..state }
        }),
{
}

/// A farewell ends the session; a message that no client should send is
/// answered with an error. Neither changes anything in the relay.
pub proof fn law_other_messages_change_nothing(
    session: SessionModel,
    kind: TokenKind,
    node_id: NodeId,
    registered: bool,
    state: StateModel,
    frame: FrameModel,
    now: i64,
)
    requires
        session.phase == (SessionPhase::Active { kind, node_id, registered }),
        !(frame is RegisterNode),
        !(frame is RegisterService),
        !(frame is UnregisterService),
        !(frame is Heartbeat),
    ensures
        ({
            let out = outcome(session, state, frame, now);
            &&& out.state == state
            &&& frame is Goodbye ==> {
                &&& out.step is Finish
                &&& out.phase == SessionPhase::Ended { node: Some(node_id) }
            }
            &&& !(frame is Goodbye) ==> {
                &&& out.step == StepModel::Reply(
                    FrameModel::Error { message: "unsupported control frame"@ },
                )
                &&& out.phase == session.phase
            }
        }),
{
}

/// The end of a session concerns the node that authenticated over it, and no
/// node where none did.
pub proof fn law_session_speaks_for_its_node(kind: TokenKind, node_id: NodeId, registered: bool)
    ensures
        session_node(SessionPhase::Active { kind, node_id, registered }) == Some(node_id),
        session_node(SessionPhase::Ended { node: Some(node_id) }) == Some(node_id),
        session_node(SessionPhase::Ended { node: None }) is None,
        session_node(SessionPhase::AwaitHello) is None,
        session_node(SessionPhase::AwaitAuth) is None,
{
}

/// The reason of a refusal is what the client is told.
pub proof fn law_refusals_are_told(port: u16)
    ensures
        register_text(RegisterFault::NameInUse) == "service name is already in use"@,
        register_text(RegisterFault::NoPortAvailable) == "no TCP relay ports are available"@,
        register_text(RegisterFault::PortOutsideRange(port)) == "TCP port "@ + decimal_text(
            port as nat,
        ) + " is outside the configured relay range"@,
        register_text(RegisterFault::PortLeased(port)) == "TCP port "@ + decimal_text(port as nat)
            + " is already leased"@,
        register_text(RegisterFault::IngressNotConfigured)
            == "HTTP/HTTPS ingress is not configured on this relay"@,
        register_text(RegisterFault::Invalid(ValidationFault::InvalidServiceName))
            == "service name is invalid"@,
{
}

/// The model of a session shows all of its fields.
pub proof fn law_session_is_shown(session: ServerSession)
    ensures
        session@.phase == session.phase,
        session@.session_id == session.session_id,
        session@.connection == session.connection,
        session@.transport == session.transport,
        session@.public_ip == session.public_ip@,
        session@.source_port == session.source_port,
{
}

/// The model of what is to be done shows what it is and all that belongs to it.
pub proof fn law_step_is_shown(step: SessionStep)
    ensures
        match step {
            SessionStep::Reply(frame) => step@ is Reply && step@->Reply_0 == frame@,
            SessionStep::ReplyAndFail(frame, error) => step@ is ReplyAndFail
                && step@->ReplyAndFail_0 == frame@ && step@->ReplyAndFail_1 == error@,
            SessionStep::Fail(error) => step@ is Fail && step@->Fail_0 == error@,
            SessionStep::NodeRegistered { node, close } => step@ is NodeRegistered && step@->node
                == node@ && step@->close == close,
            SessionStep::ServicePublished(service) => step@ is ServicePublished
                && step@->ServicePublished_0 == service@,
            SessionStep::ServiceRemoved(id) => step@ == StepModel::ServiceRemoved(id),
            SessionStep::HeartbeatRecorded { stored, sequence } => {
                &&& step@ is HeartbeatRecorded
                &&& step@->sequence == sequence
                &&& step@->stored is Some <==> stored is Some
                &&& stored matches Some((node, metric)) ==> step@->stored == Some((node@, metric))
            },
            SessionStep::Nothing => step@ is Nothing,
            SessionStep::Finish => step@ is Finish,
        },
{
}

} // verus!
