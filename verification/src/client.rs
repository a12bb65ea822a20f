//! The client's end of a control session, and how it keeps its connection.

use vstd::arithmetic::power2::{lemma2_to64, pow2};
use vstd::prelude::*;
use crate::codec::PROTOCOL_VERSION;
use crate::config::SocketAddress;
use crate::frame::{Frame, FrameModel};
use crate::ids::{id_text, uuid_text, NodeId, ServiceId};
use crate::metadata::metadata_fault;
use crate::model::{
    text_view, HeartbeatSnapshot, NodeMetadata, NodeMetadataModel, NodeStatus, ServiceDefinition,
    ServiceModel, TokenKind, TransportKind,
};
use crate::relay::registration;
use crate::session::{
    law_published_service_is_in_the_directory, outcome, token_kind_of, SessionModel, SessionPhase,
    StepModel,
};
use crate::state::{identity_accepted, StateModel};
use crate::text::{contains_text, decimal, decimal_text, joined, occurs_at, occurs_in, same_text};

verus! {

/// Where a relay is reached.
#[derive(Debug)]
pub struct RelayEndpoints {
    pub quic: SocketAddress,
    pub tcp_tls: Option<SocketAddress>,
}

/// How an attempt over QUIC went.
#[derive(Clone, Copy, Debug, PartialEq, Eq, Structural)]
pub enum QuicOutcome {
    /// The session ran and ended as it should.
    Completed,
    /// There was no connection, or its session failed.
    Failed,
    /// There was no connection in time.
    TimedOut,
}

impl RelayEndpoints {
    /// Where to connect after an attempt over QUIC: nowhere if it was completed,
    /// and to the fallback in any other case.
    pub fn after_quic(&self, outcome: QuicOutcome) -> (r: Option<&SocketAddress>)
        ensures
            r is None <==> outcome == QuicOutcome::Completed,
            r matches Some(address) ==> *address == match self.tcp_tls {
                Some(address) => address,
                None => self.quic,
            },
    {
        match outcome {
            QuicOutcome::Completed => None,
            QuicOutcome::Failed | QuicOutcome::TimedOut => Some(self.fallback()),
        }
    }

    /// Where the relay is reached when QUIC is not available.
    pub fn fallback(&self) -> (r: &SocketAddress)
        ensures
            *r == match self.tcp_tls {
                Some(address) => address,
                None => self.quic,
            },
    {
        match &self.tcp_tls {
            Some(address) => address,
            None => &self.quic,
        }
    }
}

/// Why a control session fails at the client's end.
#[derive(Debug, PartialEq, Eq)]
pub enum ClientError {
    ProtocolRejected(String),
    InvalidHello,
    TokenRejected,
    InvalidAuth,
    ServiceRejected(String),
    InvalidRegistration,
    InvalidHeartbeatAck,
    SessionEnded,
}

/// `ClientError` with its texts as sequences of characters.
pub enum ClientFault {
    ProtocolRejected(Seq<char>),
    InvalidHello,
    TokenRejected,
    InvalidAuth,
    ServiceRejected(Seq<char>),
    InvalidRegistration,
    InvalidHeartbeatAck,
    SessionEnded,
}

impl View for ClientError {
    type V = ClientFault;

    open spec fn view(&self) -> ClientFault {
        match self {
            ClientError::ProtocolRejected(message) => ClientFault::ProtocolRejected(message@),
            ClientError::InvalidHello => ClientFault::InvalidHello,
            ClientError::TokenRejected => ClientFault::TokenRejected,
            ClientError::InvalidAuth => ClientFault::InvalidAuth,
            ClientError::ServiceRejected(message) => ClientFault::ServiceRejected(message@),
            ClientError::InvalidRegistration => ClientFault::InvalidRegistration,
            ClientError::InvalidHeartbeatAck => ClientFault::InvalidHeartbeatAck,
            ClientError::SessionEnded => ClientFault::SessionEnded,
        }
    }
}

/// The text of a failure.
pub open spec fn client_text(fault: ClientFault) -> Seq<char> {
    match fault {
        ClientFault::ProtocolRejected(message) => "server rejected protocol: "@ + message,
        ClientFault::InvalidHello => "server sent an invalid Hello response"@,
        ClientFault::TokenRejected => "server rejected token"@,
        ClientFault::InvalidAuth => "server sent an invalid auth response"@,
        ClientFault::ServiceRejected(message) => "server rejected service: "@ + message,
        ClientFault::InvalidRegistration =>
            "server sent an invalid service registration response"@,
        ClientFault::InvalidHeartbeatAck =>
            "server sent an invalid heartbeat acknowledgement"@,
        ClientFault::SessionEnded => "relay session has ended"@,
    }
}

impl ClientError {
    /// The error as a text for people.
    pub fn message(&self) -> (r: String)
        ensures
            r@ == client_text(self@),
    {
        match self {
            ClientError::ProtocolRejected(message) => joined(
                "server rejected protocol: ",
                message.as_str(),
            ),
            ClientError::InvalidHello => "server sent an invalid Hello response".to_owned(),
            ClientError::TokenRejected => "server rejected token".to_owned(),
            ClientError::InvalidAuth => "server sent an invalid auth response".to_owned(),
            ClientError::ServiceRejected(message) => joined(
                "server rejected service: ",
                message.as_str(),
            ),
            ClientError::InvalidRegistration =>
                "server sent an invalid service registration response".to_owned(),
            ClientError::InvalidHeartbeatAck =>
                "server sent an invalid heartbeat acknowledgement".to_owned(),
            ClientError::SessionEnded => "relay session has ended".to_owned(),
        }
    }
}

/// How far a control session has come.
#[derive(Clone, Copy, Debug, PartialEq, Eq, Structural)]
pub enum ClientPhase {
    /// `Hello` is sent.
    AwaitHello,
    /// `Auth` is sent.
    AwaitAuth,
    /// `RegisterService` is sent.
    AwaitService,
    /// Heartbeats are exchanged.
    Running,
    Ended,
}

/// A control session as the client leads it.
#[derive(Debug)]
pub struct ClientSession {
    pub phase: ClientPhase,
    pub transport: TransportKind,
    pub token: String,
    pub node_id: NodeId,
    pub metadata: NodeMetadata,
    pub public_key: [u8; 32],
    pub service: Option<ServiceDefinition>,
    /// The number of the last heartbeat that was sent.
    pub sequence: u64,
    pub once: bool,
}

/// `ClientSession` in mathematical terms.
#[verifier::ext_equal]
pub struct ClientModel {
    pub phase: ClientPhase,
    pub transport: TransportKind,
    pub token: Seq<char>,
    pub node_id: NodeId,
    pub metadata: NodeMetadataModel,
    pub public_key: Seq<u8>,
    pub service: Option<ServiceModel>,
    pub sequence: u64,
    pub once: bool,
}

/// The view of an optional service.
pub open spec fn service_option(service: Option<ServiceDefinition>) -> Option<ServiceModel> {
    match service {
        Some(service) => Some(service@),
        None => None,
    }
}

impl View for ClientSession {
    type V = ClientModel;

    open spec fn view(&self) -> ClientModel {
        ClientModel {
            phase: self.phase,
            transport: self.transport,
            token: self.token@,
            node_id: self.node_id,
            metadata: self.metadata@,
            public_key: self.public_key@,
            service: service_option(self.service),
            sequence: self.sequence,
            once: self.once,
        }
    }
}

/// What is to be done after a message of the relay.
#[derive(Debug)]
pub enum ClientStep {
    /// Send the message.
    Send(Frame),
    /// Send the first message, and then the second one if there is one; if not,
    /// go on with a heartbeat.
    Register(Frame, Option<Frame>),
    /// Remember the local address of the service, print the line and go on with
    /// a heartbeat.
    Published { service_id: ServiceId, local_address: String, line: String },
    /// Print the line; go on with a heartbeat after `HEARTBEAT_SECONDS`.
    Alive(String),
    /// Print the line, send the message and end the session.
    Finish(String, Frame),
    /// End the session with the error.
    Fail(ClientError),
}

/// `ClientStep` in mathematical terms.
pub enum ClientStepModel {
    Send(FrameModel),
    Register(FrameModel, Option<FrameModel>),
    Published { service_id: ServiceId, local_address: Seq<char>, line: Seq<char> },
    Alive(Seq<char>),
    Finish(Seq<char>, FrameModel),
    Fail(ClientFault),
}

/// The view of an optional message.
pub open spec fn frame_option(frame: Option<Frame>) -> Option<FrameModel> {
    match frame {
        Some(frame) => Some(frame@),
        None => None,
    }
}

impl View for ClientStep {
    type V = ClientStepModel;

    open spec fn view(&self) -> ClientStepModel {
        match *self {
            ClientStep::Send(frame) => ClientStepModel::Send(frame@),
            ClientStep::Register(node, service) => ClientStepModel::Register(
                node@,
                frame_option(service),
            ),
            ClientStep::Published { service_id, local_address, line } =>
                ClientStepModel::Published {
                service_id,
                local_address: local_address@,
                line: line@,
            },
            ClientStep::Alive(line) => ClientStepModel::Alive(line@),
            ClientStep::Finish(line, frame) => ClientStepModel::Finish(line@, frame@),
            ClientStep::Fail(error) => ClientStepModel::Fail(error@),
        }
    }
}

/// The time between two heartbeats.
pub const HEARTBEAT_SECONDS: u64 = 60;

/// The time within which a QUIC connection has to be there.
pub const QUIC_TIMEOUT_SECONDS: u64 = 5;

/// How a published service is announced: its name and where it is reached.
pub open spec fn published_text(service: ServiceModel) -> Seq<char> {
    let host = match service.public_host {
        Some(host) => host,
        None => "unassigned"@,
    };
    let port = match service.public_port {
        Some(port) => ":"@ + decimal_text(port as nat),
        None => ""@,
    };
    "published service="@ + service.service_name + " endpoint="@ + host + port
}

/// How a published service is announced.
pub fn published_line(service: &ServiceDefinition) -> (r: String)
    ensures
        r@ == published_text(service@),
{
    let mut out = joined("published service=", service.service_name.as_str());
    out.append(" endpoint=");
    match &service.public_host {
        Some(host) => out.append(host.as_str()),
        None => out.append("unassigned"),
    }
    match service.public_port {
        Some(port) => {
            let number = decimal(port as u64);
            let suffix = joined(":", number.as_str());
            out.append(suffix.as_str());
        },
        None => out.append(""),
    }
    out
}

/// The name of a transport in what the client prints.
pub open spec fn transport_text(transport: TransportKind) -> Seq<char> {
    match transport {
        TransportKind::Quic => "quic"@,
        TransportKind::TcpTlsYamux => "tcp-tls-yamux"@,
    }
}

/// How an acknowledged heartbeat is announced.
pub open spec fn connected_text(
    transport: TransportKind,
    node_id: NodeId,
    sequence: u64,
) -> Seq<char> {
    "connected transport="@ + transport_text(transport) + " node_id="@ + uuid_text(node_id.0)
        + " heartbeat="@ + decimal_text(sequence as nat)
}

/// How an acknowledged heartbeat is announced.
pub fn connected_line(transport: TransportKind, node_id: NodeId, sequence: u64) -> (r: String)
    ensures
        r@ == connected_text(transport, node_id, sequence),
{
    let name = match transport {
        TransportKind::Quic => "quic",
        TransportKind::TcpTlsYamux => "tcp-tls-yamux",
    };
    let mut out = joined("connected transport=", name);
    let id = id_text(node_id.0);
    let number = decimal(sequence);
    out.append(" node_id=");
    out.append(id.as_str());
    out.append(" heartbeat=");
    out.append(number.as_str());
    out
}

/// What a message of the relay leads to: how far the session has come and what
/// is to be done.
pub open spec fn client_outcome(session: ClientModel, frame: FrameModel) -> (
    ClientPhase,
    ClientStepModel,
) {
    match session.phase {
        ClientPhase::AwaitHello => match frame {
            FrameModel::Hello { version } => if version == PROTOCOL_VERSION {
                (
                    ClientPhase::AwaitAuth,
                    ClientStepModel::Send(
                        FrameModel::Auth { token: session.token, node_id: session.node_id },
                    ),
                )
            } else {
                (ClientPhase::Ended, ClientStepModel::Fail(ClientFault::InvalidHello))
            },
            FrameModel::Error { message } => (
                ClientPhase::Ended,
                ClientStepModel::Fail(ClientFault::ProtocolRejected(message)),
            ),
            _ => (ClientPhase::Ended, ClientStepModel::Fail(ClientFault::InvalidHello)),
        },
        ClientPhase::AwaitAuth => match frame {
            FrameModel::AuthAccepted { kind } => {
                let node = FrameModel::RegisterNode {
                    metadata: session.metadata,
                    public_key: session.public_key,
                };
                match session.service {
                    Some(service) => (
                        ClientPhase::AwaitService,
                        ClientStepModel::Register(
                            node,
                            Some(FrameModel::RegisterService { service }),
                        ),
                    ),
                    None => (ClientPhase::Running, ClientStepModel::Register(node, None)),
                }
            },
            FrameModel::AuthRejected => (
                ClientPhase::Ended,
                ClientStepModel::Fail(ClientFault::TokenRejected),
            ),
            _ => (ClientPhase::Ended, ClientStepModel::Fail(ClientFault::InvalidAuth)),
        },
        ClientPhase::AwaitService => match frame {
            FrameModel::RegisterServiceAccepted { service } => (
                ClientPhase::Running,
                ClientStepModel::Published {
                    service_id: service.service_id,
                    local_address: match session.service {
                        Some(asked) => asked.local_address,
                        None => service.local_address,
                    },
                    line: published_text(service),
                },
            ),
            FrameModel::Error { message } => (
                ClientPhase::Ended,
                ClientStepModel::Fail(ClientFault::ServiceRejected(message)),
            ),
            _ => (ClientPhase::Ended, ClientStepModel::Fail(ClientFault::InvalidRegistration)),
        },
        ClientPhase::Running => match frame {
            FrameModel::HeartbeatAck { sequence, server_time_unix_ms } => if sequence
                == session.sequence {
                let line = connected_text(session.transport, session.node_id, session.sequence);
                if session.once {
                    (ClientPhase::Ended, ClientStepModel::Finish(line, FrameModel::Goodbye))
                } else {
                    (ClientPhase::Running, ClientStepModel::Alive(line))
                }
            } else {
                (ClientPhase::Ended, ClientStepModel::Fail(ClientFault::InvalidHeartbeatAck))
            },
            _ => (ClientPhase::Ended, ClientStepModel::Fail(ClientFault::InvalidHeartbeatAck)),
        },
        ClientPhase::Ended => (
            ClientPhase::Ended,
            ClientStepModel::Fail(ClientFault::SessionEnded),
        ),
    }
}

impl ClientSession {
    /// A session that begins with the message that is handed back with it.
    pub fn new(
        transport: TransportKind,
        token: String,
        node_id: NodeId,
        metadata: NodeMetadata,
        public_key: [u8; 32],
        service: Option<ServiceDefinition>,
        once: bool,
    ) -> (r: (Self, Frame))
        ensures
            r.0@ == (ClientModel {
                phase: ClientPhase::AwaitHello,
                transport,
                token: token@,
                node_id,
                metadata: metadata@,
                public_key: public_key@,
                service: service_option(service),
                sequence: 0,
                once,
            }),
            r.1@ == (FrameModel::Hello { version: PROTOCOL_VERSION }),
    {
        let session = ClientSession {
            phase: ClientPhase::AwaitHello,
            transport,
            token,
            node_id,
            metadata,
            public_key,
            service,
            sequence: 0,
            once,
        };
        (session, Frame::Hello { version: PROTOCOL_VERSION })
    }

    /// The number of the next heartbeat, which is to be sent now.
    pub fn next_heartbeat(&mut self) -> (r: u64)
        requires
            old(self).sequence < u64::MAX,
        ensures
            r == old(self).sequence + 1,
            final(self)@ == (ClientModel { sequence: r, ..old(self)@ }),
    {
        self.sequence += 1;
        self.sequence
    }

    /// Takes a message of the relay and says what is to be done.
    pub fn on_frame(&mut self, frame: Frame) -> (r: ClientStep)
        ensures
            ({
                let (phase, step) = client_outcome(old(self)@, frame@);
                &&& final(self)@ == ClientModel { phase, ..old(self)@ }
                &&& r@ == step
            }),
    {
        match self.phase {
            ClientPhase::AwaitHello => match frame {
                Frame::Hello { version } => if version == PROTOCOL_VERSION {
                    self.phase = ClientPhase::AwaitAuth;
                    ClientStep::Send(
                        Frame::Auth { token: self.token.clone(), node_id: self.node_id },
                    )
                } else {
                    self.fail(ClientError::InvalidHello)
                },
                Frame::Error { message } => self.fail(ClientError::ProtocolRejected(message)),
                _ => self.fail(ClientError::InvalidHello),
            },
            ClientPhase::AwaitAuth => match frame {
                Frame::AuthAccepted { .. } => {
                    let node = Frame::RegisterNode {
                        metadata: self.metadata.clone(),
                        public_key: self.public_key,
                    };
                    match &self.service {
                        Some(service) => {
                            let request = Frame::RegisterService { service: service.clone() };
                            self.phase = ClientPhase::AwaitService;
                            ClientStep::Register(node, Some(request))
                        },
                        None => {
                            self.phase = ClientPhase::Running;
                            ClientStep::Register(node, None)
                        },
                    }
                },
                Frame::AuthRejected => self.fail(ClientError::TokenRejected),
                _ => self.fail(ClientError::InvalidAuth),
            },
            ClientPhase::AwaitService => match frame {
                Frame::RegisterServiceAccepted { service } => {
                    let line = published_line(&service);
                    let local_address = match &self.service {
                        Some(asked) => asked.local_address.clone(),
                        None => service.local_address,
                    };
                    self.phase = ClientPhase::Running;
                    ClientStep::Published { service_id: service.service_id, local_address, line }
                },
                Frame::Error { message } => self.fail(ClientError::ServiceRejected(message)),
                _ => self.fail(ClientError::InvalidRegistration),
            },
            ClientPhase::Running => match frame {
                Frame::HeartbeatAck { sequence, .. } => if sequence == self.sequence {
                    let line = connected_line(self.transport, self.node_id, self.sequence);
                    if self.once {
                        self.phase = ClientPhase::Ended;
                        ClientStep::Finish(line, Frame::Goodbye)
                    } else {
                        ClientStep::Alive(line)
                    }
                } else {
                    self.fail(ClientError::InvalidHeartbeatAck)
                },
                _ => self.fail(ClientError::InvalidHeartbeatAck),
            },
            ClientPhase::Ended => self.fail(ClientError::SessionEnded),
        }
    }

    fn fail(&mut self, error: ClientError) -> (r: ClientStep)
        ensures
            final(self)@ == (ClientModel { phase: ClientPhase::Ended, ..old(self)@ }),
            r@ == ClientStepModel::Fail(error@),
    {
        self.phase = ClientPhase::Ended;
        ClientStep::Fail(error)
    }
}

/// Whether a failure says that the relay does not accept the token.
pub open spec fn says_unauthenticated(message: Seq<char>) -> bool {
    occurs_in(message, "rejected token"@) || occurs_in(message, "authentication rejected"@)
}

/// Whether a failure says that the relay does not accept the token.
pub fn is_authentication_error(message: &str) -> (r: bool)
    ensures
        r == says_unauthenticated(message@),
{
    contains_text(message, "rejected token") || contains_text(message, "authentication rejected")
}

/// Two to the power of the number of attempts, up to the fifth power.
pub open spec fn base_delay(attempt: u32) -> nat {
    pow2(if attempt < 5 {
        attempt as nat
    } else {
        5
    })
}

/// The least time to wait before attempt number `attempt`, in seconds.
pub fn base_delay_seconds(attempt: u32) -> (r: u64)
    ensures
        r == base_delay(attempt),
{
    proof {
        lemma2_to64();
    }
    match attempt {
        0 => 1,
        1 => 2,
        2 => 4,
        3 => 8,
        4 => 16,
        _ => 32,
    }
}

/// `rand::random_range` draws a number from a range. It rests on chance; what
/// is claimed of every outcome is that it lies in the range.
#[verifier::external_body]
fn random_up_to(max: u64) -> (r: u64)
    ensures
        r <= max,
{
    rand::random_range(0..=max)
}

/// What is to be done after a connection has ended.
#[derive(Clone, Copy, Debug, PartialEq, Eq, Structural)]
pub enum RetryStep {
    /// Nothing: it ended as it should.
    Done,
    /// End with the failure.
    GiveUp,
    /// Connect again, as attempt number `attempt`, after so many seconds.
    Retry { attempt: u32, seconds: u64 },
}

/// The text of the failure with which a connection ended, if it did.
pub open spec fn failure_text(failure: Option<&str>) -> Option<Seq<char>> {
    match failure {
        Some(message) => Some(message@),
        None => None,
    }
}

/// What is to be done after a connection has ended, given the part of the
/// waiting time that chance decides.
pub open spec fn retried(
    failure: Option<Seq<char>>,
    once: bool,
    attempt: u32,
    jitter: u64,
) -> RetryStep {
    match failure {
        None => RetryStep::Done,
        Some(message) => if once || says_unauthenticated(message) {
            RetryStep::GiveUp
        } else {
            let next = if attempt == u32::MAX {
                attempt
            } else {
                (attempt + 1) as u32
            };
            RetryStep::Retry { attempt: next, seconds: (base_delay(next) + jitter) as u64 }
        },
    }
}

/// Decides what is to be done after connection number `attempt` has ended,
/// given the part of the waiting time that chance decides.
pub fn retry_with(failure: Option<&str>, once: bool, attempt: u32, jitter: u64) -> (r: RetryStep)
    requires
        jitter <= u64::MAX - 32,
    ensures
        r == retried(failure_text(failure), once, attempt, jitter),
{
    proof {
        lemma2_to64();
    }
    match failure {
        None => RetryStep::Done,
        Some(message) => if once || is_authentication_error(message) {
            RetryStep::GiveUp
        } else {
            let next: u32 = attempt.saturating_add(1);
            RetryStep::Retry { attempt: next, seconds: base_delay_seconds(next) + jitter }
        },
    }
}

/// Decides what is to be done after connection number `attempt` has ended. The
/// waiting time doubles with each attempt up to 32 seconds; up to a third more
/// is added at random.
pub fn after_connection(failure: Option<&str>, once: bool, attempt: u32) -> (r: RetryStep)
    ensures
        exists|jitter: u64|
            {
                &&& r == #[trigger] retried(failure_text(failure), once, attempt, jitter)
                &&& r matches RetryStep::Retry { attempt: next, seconds } ==> jitter <= base_delay(
                    next,
                ) / 3
            },
{
    proof {
        lemma2_to64();
    }
    let next: u32 = attempt.saturating_add(1);
    let jitter: u64 = random_up_to(base_delay_seconds(next) / 3);
    retry_with(failure, once, attempt, jitter)
}

/// A client waits between 2 and 42 seconds before it connects again, and counts
/// its attempts.
pub proof fn law_waiting_time_is_bounded(
    message: Seq<char>,
    attempt: u32,
    jitter: u64,
)
    requires
        !says_unauthenticated(message),
        attempt < u32::MAX ==> jitter <= base_delay((attempt + 1) as u32) / 3,
        attempt == u32::MAX ==> jitter <= base_delay(attempt) / 3,
    ensures
        ({
            let step = retried(Some(message), false, attempt, jitter);
            &&& step is Retry
            &&& 2 <= step->seconds <= 42
            &&& step->Retry_attempt >= attempt
        }),
{
    lemma2_to64();
}

/// A client whose token is refused does not try again.
pub proof fn law_refused_token_is_final(once: bool, attempt: u32, jitter: u64)
    ensures
        says_unauthenticated(client_text(ClientFault::TokenRejected)),
        retried(Some(client_text(ClientFault::TokenRejected)), once, attempt, jitter)
            == RetryStep::GiveUp,
{
    reveal_strlit("server rejected token");
    reveal_strlit("rejected token");
    let text = "server rejected token"@;
    let part = "rejected token"@;
    assert(text.subrange(7, 21) =~= part);
    assert(occurs_at(text, part, 7));
}

/// The two ends understand each other: a client whose token is in force gets
/// from one message to the next as far as the registration of its node, and
/// from there each heartbeat is acknowledged with its number.
pub proof fn law_ends_agree_on_session(
    server: SessionModel,
    client: ClientModel,
    state: StateModel,
    kind: TokenKind,
    now: i64,
    snapshot: HeartbeatSnapshot,
)
    requires
        server.phase == SessionPhase::AwaitHello,
        client.phase == ClientPhase::AwaitHello,
        token_kind_of(state, client.token) == Some(kind),
        metadata_fault(client.metadata.metadata) is None,
        identity_accepted(state.nodes, client.node_id, client.public_key),
        !client.once,
    ensures
        ({
            let hello = FrameModel::Hello { version: PROTOCOL_VERSION };
            let auth = FrameModel::Auth { token: client.token, node_id: client.node_id };
            let accepted = FrameModel::AuthAccepted { kind };
            let node = FrameModel::RegisterNode {
                metadata: client.metadata,
                public_key: client.public_key,
            };
            let greeted = SessionModel { phase: SessionPhase::AwaitAuth, ..server };
            let admitted = SessionModel {
                phase: SessionPhase::Active {
                    kind,
                    node_id: client.node_id,
                    registered: false,
                },
                ..server
            };
            let waiting = ClientModel { phase: ClientPhase::AwaitAuth, ..client };
            &&& outcome(server, state, hello, now).step == StepModel::Reply(hello)
            &&& outcome(server, state, hello, now).phase == greeted.phase
            &&& client_outcome(client, hello) == (
                ClientPhase::AwaitAuth,
                ClientStepModel::Send(auth),
            )
            &&& outcome(greeted, state, auth, now).step == StepModel::Reply(accepted)
            &&& outcome(greeted, state, auth, now).phase == admitted.phase
            &&& client_outcome(waiting, accepted).1 is Register
            &&& client_outcome(waiting, accepted).1->Register_0 == node
            &&& outcome(admitted, state, node, now).step is NodeRegistered
            &&& outcome(admitted, state, node, now).state.nodes[client.node_id.0].status
                == NodeStatus::Online
            &&& outcome(admitted, state, FrameModel::Heartbeat { snapshot }, now).step
                is HeartbeatRecorded
            &&& outcome(
                admitted,
                state,
                FrameModel::Heartbeat { snapshot },
                now,
            ).step->sequence == snapshot.sequence
            &&& client_outcome(
                ClientModel {
                    phase: ClientPhase::Running,
                    sequence: snapshot.sequence,
                    ..client
                },
                FrameModel::HeartbeatAck {
                    sequence: snapshot.sequence,
                    server_time_unix_ms: now,
                },
            ).1 is Alive
        }),
{
}

/// A client whose token is not in force is told so by the relay, and does not
/// try again.
pub proof fn law_client_learns_of_refused_token(
    server: SessionModel,
    client: ClientModel,
    state: StateModel,
    now: i64,
    attempt: u32,
    jitter: u64,
)
    requires
        server.phase == SessionPhase::AwaitAuth,
        client.phase == ClientPhase::AwaitAuth,
        token_kind_of(state, client.token) is None,
    ensures
        ({
            let auth = FrameModel::Auth { token: client.token, node_id: client.node_id };
            let answer = outcome(server, state, auth, now).step;
            let step = client_outcome(client, answer->ReplyAndFail_0).1;
            &&& answer is ReplyAndFail
            &&& step == ClientStepModel::Fail(ClientFault::TokenRejected)
            &&& retried(
                Some(client_text(step->Fail_0)),
                client.once,
                attempt,
                jitter,
            ) == RetryStep::GiveUp
        }),
{
    law_refused_token_is_final(client.once, attempt, jitter);
}

/// Why the address of a server's API is refused.
#[derive(Clone, Copy, Debug, PartialEq, Eq, Structural)]
pub enum ServerUrlError {
    NotAbsolute,
    NoScheme,
    NotHttp,
    NoAuthority,
}

impl ServerUrlError {
    /// The error as a text for people.
    pub fn message(&self) -> (r: String)
        ensures
            r@ == match self {
                ServerUrlError::NotAbsolute => "server must be an absolute HTTP URL"@,
                ServerUrlError::NoScheme => "server URL needs a scheme"@,
                ServerUrlError::NotHttp =>
                    "only http:// control API is available during this development phase"@,
                ServerUrlError::NoAuthority => "server URL needs an authority"@,
            },
    {
        match self {
            ServerUrlError::NotAbsolute => "server must be an absolute HTTP URL".to_owned(),
            ServerUrlError::NoScheme => "server URL needs a scheme".to_owned(),
            ServerUrlError::NotHttp =>
                "only http:// control API is available during this development phase".to_owned(),
            ServerUrlError::NoAuthority => "server URL needs an authority".to_owned(),
        }
    }
}

/// The scheme and the authority of a URI.
#[derive(Debug)]
pub struct UriParts {
    pub scheme: Option<String>,
    pub authority: Option<String>,
}

/// The scheme and the authority that `hyper::Uri` reads out of a text, `None`
/// where it refuses the text.
pub uninterp spec fn uri_parts(text: Seq<char>) -> Option<(Option<Seq<char>>, Option<Seq<char>>)>;

/// The views of the parts of a URI.
pub open spec fn parts_view(parts: Option<UriParts>) -> Option<
    (Option<Seq<char>>, Option<Seq<char>>),
> {
    match parts {
        Some(parts) => Some((text_view(parts.scheme), text_view(parts.authority))),
        None => None,
    }
}

/// `hyper::Uri` reads a text. What is claimed: which scheme and which authority
/// it finds is a function of the text.
#[verifier::external_body]
fn parse_uri(text: &str) -> (r: Option<UriParts>)
    ensures
        parts_view(r) == uri_parts(text@),
{
    match text.parse::<hyper::Uri>() {
        Ok(uri) => Some(UriParts {
            scheme: uri.scheme_str().map(str::to_owned),
            authority: uri.authority().map(|value| value.as_str().to_owned()),
        }),
        Err(_) => None,
    }
}

/// The address of the service directory of a server.
pub open spec fn directory_url(parts: Option<(Option<Seq<char>>, Option<Seq<char>>)>) -> Result<
    Seq<char>,
    ServerUrlError,
> {
    match parts {
        None => Err(ServerUrlError::NotAbsolute),
        Some((scheme, authority)) => match scheme {
            None => Err(ServerUrlError::NoScheme),
            Some(scheme) => if scheme != "http"@ {
                Err(ServerUrlError::NotHttp)
            } else {
                match authority {
                    None => Err(ServerUrlError::NoAuthority),
                    Some(authority) => Ok("http://"@ + authority + "/v1/services"@),
                }
            },
        },
    }
}

/// The address of the service directory of a server whose URI has these parts.
pub fn services_url_of(parts: Option<UriParts>) -> (r: Result<String, ServerUrlError>)
    ensures
        match r {
            Ok(url) => directory_url(parts_view(parts)) == Ok::<_, ServerUrlError>(url@),
            Err(error) => directory_url(parts_view(parts)) == Err::<Seq<char>, _>(error),
        },
{
    let parts = match parts {
        Some(parts) => parts,
        None => return Err(ServerUrlError::NotAbsolute),
    };
    let scheme = match parts.scheme {
        Some(scheme) => scheme,
        None => return Err(ServerUrlError::NoScheme),
    };
    if !same_text(scheme.as_str(), "http") {
        return Err(ServerUrlError::NotHttp);
    }
    match parts.authority {
        Some(authority) => {
            let mut url = joined("http://", authority.as_str());
            url.append("/v1/services");
            Ok(url)
        },
        None => Err(ServerUrlError::NoAuthority),
    }
}

/// The address of the service directory of a server.
pub fn services_url(server: &str) -> (r: Result<String, ServerUrlError>)
    ensures
        match r {
            Ok(url) => directory_url(uri_parts(server@)) == Ok::<_, ServerUrlError>(url@),
            Err(error) => directory_url(uri_parts(server@)) == Err::<Seq<char>, _>(error),
        },
{
    services_url_of(parse_uri(server))
}

/// The value of the `Authorization` field that carries a token.
pub fn bearer_value(token: &str) -> (r: String)
    ensures
        r@ == "Bearer "@ + token@,
{
    joined("Bearer ", token)
}

/// What becomes of the answer of a server to a request for its directory: its
/// body is printed where the status is one of success, and is part of the error
/// otherwise.
pub fn services_answer(status: u16, status_text: &str, body: &str) -> (r: Result<String, String>)
    ensures
        match r {
            Ok(text) => 200 <= status <= 299 && text@ == body@,
            Err(error) => !(200 <= status <= 299) && error@ == "server returned "@ + status_text@
                + ": "@ + body@,
        },
{
    if 200 <= status && status <= 299 {
        Ok(body.to_owned())
    } else {
        let mut error = joined("server returned ", status_text);
        error.append(": ");
        error.append(body);
        Err(error)
    }
}

/// A greeted client sends its token for its node; a relay that speaks another
/// version, refuses the protocol or says anything else ends the session.
pub proof fn law_greeted_client_sends_its_token(client: ClientModel, frame: FrameModel)
    requires
        client.phase == ClientPhase::AwaitHello,
    ensures
        ({
            let (phase, step) = client_outcome(client, frame);
            match frame {
                FrameModel::Hello { version } => if version == 1 {
                    &&& phase == ClientPhase::AwaitAuth
                    &&& step is Send
                    &&& step->Send_0 is Auth
                    &&& step->Send_0->token == client.token
                    &&& step->Send_0->Auth_node_id == client.node_id
                } else {
                    phase == ClientPhase::Ended && step == ClientStepModel::Fail(
                        ClientFault::InvalidHello,
                    )
                },
                FrameModel::Error { message } => phase == ClientPhase::Ended && step
                    == ClientStepModel::Fail(ClientFault::ProtocolRejected(message)),
                _ => phase == ClientPhase::Ended && step == ClientStepModel::Fail(
                    ClientFault::InvalidHello,
                ),
            }
        }),
{
}

/// An admitted client registers its node as it is, and publishes its service
/// exactly as it was given; without a service it goes on with heartbeats. A
/// client that is not admitted ends.
pub proof fn law_admitted_client_registers(client: ClientModel, frame: FrameModel)
    requires
        client.phase == ClientPhase::AwaitAuth,
    ensures
        ({
            let (phase, step) = client_outcome(client, frame);
            &&& frame is AuthAccepted ==> {
                &&& step is Register
                &&& step->Register_0 is RegisterNode
                &&& step->Register_0->metadata == client.metadata
                &&& step->Register_0->public_key == client.public_key
                &&& client.service is None ==> step->Register_1 is None && phase
                    == ClientPhase::Running
                &&& client.service is Some ==> {
                    let asked = client.service->0;
                    let sent = step->Register_1->0->RegisterService_service;
                    &&& phase == ClientPhase::AwaitService
                    &&& step->Register_1 is Some
                    &&& step->Register_1->0 is RegisterService
                    &&& sent.service_id == asked.service_id
                    &&& sent.service_name == asked.service_name
                    &&& sent.node_id == asked.node_id
                    &&& sent.protocol == asked.protocol
                    &&& sent.local_address == asked.local_address
                    &&& sent.public_host == asked.public_host
                    &&& sent.public_port == asked.public_port
                    &&& sent.metadata == asked.metadata
                }
            }
            &&& frame is AuthRejected ==> phase == ClientPhase::Ended && step
                == ClientStepModel::Fail(ClientFault::TokenRejected)
            &&& !(frame is AuthAccepted) && !(frame is AuthRejected) ==> phase
                == ClientPhase::Ended && step == ClientStepModel::Fail(ClientFault::InvalidAuth)
        }),
{
}

/// A client whose service is published serves it from the local address that it
/// was given, under the identifier that the relay names, and announces it; one
/// whose service is refused ends with the relay's reason.
pub proof fn law_client_serves_what_is_published(client: ClientModel, frame: FrameModel)
    requires
        client.phase == ClientPhase::AwaitService,
        client.service is Some,
    ensures
        ({
            let (phase, step) = client_outcome(client, frame);
            match frame {
                FrameModel::RegisterServiceAccepted { service } => {
                    &&& phase == ClientPhase::Running
                    &&& step is Published
                    &&& step->service_id == service.service_id
                    &&& step->local_address == client.service->0.local_address
                    &&& step->line == published_text(service)
                },
                FrameModel::Error { message } => phase == ClientPhase::Ended && step
                    == ClientStepModel::Fail(ClientFault::ServiceRejected(message)),
                _ => phase == ClientPhase::Ended && step == ClientStepModel::Fail(
                    ClientFault::InvalidRegistration,
                ),
            }
        }),
{
}

/// A running client goes on exactly as long as its last heartbeat is
/// acknowledged; one that is to run once says farewell then.
pub proof fn law_client_lives_on_acknowledgements(client: ClientModel, frame: FrameModel)
    requires
        client.phase == ClientPhase::Running,
    ensures
        ({
            let (phase, step) = client_outcome(client, frame);
            let acknowledged = frame is HeartbeatAck && frame->sequence == client.sequence;
            &&& acknowledged && !client.once ==> {
                &&& phase == ClientPhase::Running
                &&& step == ClientStepModel::Alive(
                    connected_text(client.transport, client.node_id, client.sequence),
                )
            }
            &&& acknowledged && client.once ==> {
                &&& phase == ClientPhase::Ended
                &&& step == ClientStepModel::Finish(
                    connected_text(client.transport, client.node_id, client.sequence),
                    FrameModel::Goodbye,
                )
            }
            &&& !acknowledged ==> {
                &&& phase == ClientPhase::Ended
                &&& step == ClientStepModel::Fail(ClientFault::InvalidHeartbeatAck)
            }
        }),
{
}

/// A session that has ended stays ended.
pub proof fn law_ended_client_stays_ended(client: ClientModel, frame: FrameModel)
    requires
        client.phase == ClientPhase::Ended,
    ensures
        client_outcome(client, frame).0 == ClientPhase::Ended,
        client_outcome(client, frame).1 == ClientStepModel::Fail(ClientFault::SessionEnded),
{
}

/// From end to end: what an admitted client is to publish is, where the relay
/// takes it, in the directory of the relay with the name, the protocol, the
/// local address and the metadata that were given, and the client then serves
/// it from that address.
pub proof fn law_client_publishes_its_service(
    server: SessionModel,
    client: ClientModel,
    state: StateModel,
    kind: TokenKind,
    now: i64,
)
    requires
        client.phase == ClientPhase::AwaitAuth,
        client.service is Some,
        client.service->0.node_id == client.node_id,
        server.phase == (SessionPhase::Active { kind, node_id: client.node_id, registered: true }),
        registration(state, client.service->0, client.node_id) is Ok,
    ensures
        ({
            let asked = client.service->0;
            let request = client_outcome(client, FrameModel::AuthAccepted { kind }).1->Register_1->0;
            let out = outcome(server, state, request, now);
            let entry = out.step->ServicePublished_0;
            let then = client_outcome(
                ClientModel { phase: ClientPhase::AwaitService, ..client },
                FrameModel::RegisterServiceAccepted { service: entry },
            );
            &&& out.step is ServicePublished
            &&& out.state.services.contains_key(entry.service_id.0)
            &&& out.state.services[entry.service_id.0] == entry
            &&& entry.node_id == client.node_id
            &&& entry.service_name == asked.service_name
            &&& entry.protocol == asked.protocol
            &&& entry.local_address == asked.local_address
            &&& entry.metadata == asked.metadata
            &&& then.1 is Published
            &&& then.1->service_id == entry.service_id
            &&& then.1->local_address == asked.local_address
        }),
{
    law_admitted_client_registers(client, FrameModel::AuthAccepted { kind });
    law_published_service_is_in_the_directory(
        server,
        kind,
        client.node_id,
        state,
        client.service->0,
        now,
        0,
    );
}

/// A published service is announced with its name and where it is reached: its
/// host, behind which a TCP service has its port.
pub proof fn law_announcement_names_the_endpoint(service: ServiceModel)
    ensures
        service.public_host is Some && service.public_port is Some ==> published_text(service)
            == "published service="@ + service.service_name + " endpoint="@
            + service.public_host->0 + ":"@ + decimal_text(service.public_port->0 as nat),
        service.public_host is Some && service.public_port is None ==> published_text(service)
            == "published service="@ + service.service_name + " endpoint="@
            + service.public_host->0,
        service.public_host is None ==> occurs_in(published_text(service), "unassigned"@),
{
    reveal_strlit("");
    let head = "published service="@ + service.service_name + " endpoint="@;
    match (service.public_host, service.public_port) {
        (Some(host), Some(port)) => {
            assert(published_text(service) =~= head + host + ":"@ + decimal_text(port as nat));
        },
        (Some(host), None) => {
            assert(published_text(service) =~= head + host);
        },
        (None, _) => {
            let at = head.len() as int;
            let text = published_text(service);
            assert(text.subrange(at, at + "unassigned"@.len()) =~= "unassigned"@);
            assert(occurs_at(text, "unassigned"@, at));
        },
    }
}

/// A client says over which transport it is connected, as which node, and how
/// many heartbeats were acknowledged.
pub proof fn law_connection_is_announced(node_id: NodeId, sequence: u64)
    ensures
        connected_text(TransportKind::Quic, node_id, sequence) == "connected transport="@ + "quic"@
            + " node_id="@ + uuid_text(node_id.0) + " heartbeat="@ + decimal_text(sequence as nat),
        connected_text(TransportKind::TcpTlsYamux, node_id, sequence) == "connected transport="@
            + "tcp-tls-yamux"@ + " node_id="@ + uuid_text(node_id.0) + " heartbeat="@
            + decimal_text(sequence as nat),
{
}

/// The waiting time begins with a second, doubles with each attempt and stays
/// at 32 seconds from the fifth on.
pub proof fn law_waiting_time_doubles(attempt: u32)
    ensures
        base_delay(0) == 1,
        attempt < 5 ==> base_delay((attempt + 1) as u32) == 2 * base_delay(attempt),
        attempt >= 5 ==> base_delay(attempt) == 32,
{
    lemma2_to64();
}

/// A connection that ended well is not tried again, nor is one that was to be
/// made once or whose token was refused; every other one is, as the next
/// attempt, after the waiting time and what chance adds.
pub proof fn law_failed_connection_is_tried_again(
    message: Seq<char>,
    once: bool,
    attempt: u32,
    jitter: u64,
)
    requires
        jitter <= u64::MAX - 32,
    ensures
        retried(None, once, attempt, jitter) == RetryStep::Done,
        retried(Some(message), true, attempt, jitter) == RetryStep::GiveUp,
        says_unauthenticated(message) ==> retried(Some(message), once, attempt, jitter)
            == RetryStep::GiveUp,
        !once && !says_unauthenticated(message) ==> {
            let step = retried(Some(message), once, attempt, jitter);
            &&& step is Retry
            &&& attempt < u32::MAX ==> step->Retry_attempt == attempt + 1
            &&& attempt == u32::MAX ==> step->Retry_attempt == attempt
            &&& step->seconds == base_delay(step->Retry_attempt) + jitter
        },
{
    lemma2_to64();
}

/// A failure speaks of a refused token exactly if it has one of two phrases
/// anywhere in it.
pub proof fn law_refused_token_is_recognised(before: Seq<char>, after: Seq<char>, message: Seq<char>)
    ensures
        says_unauthenticated(before + "rejected token"@ + after),
        says_unauthenticated(before + "authentication rejected"@ + after),
        says_unauthenticated(message) ==> exists|at: int, phrase: Seq<char>|
            {
                &&& phrase == "rejected token"@ || phrase == "authentication rejected"@
                &&& 0 <= at <= message.len() - phrase.len()
                &&& #[trigger] message.subrange(at, at + phrase.len()) == phrase
            },
{
    let at = before.len() as int;
    let first = before + "rejected token"@ + after;
    assert(first.subrange(at, at + "rejected token"@.len()) =~= "rejected token"@);
    assert(occurs_at(first, "rejected token"@, at));
    let second = before + "authentication rejected"@ + after;
    assert(second.subrange(at, at + "authentication rejected"@.len())
        =~= "authentication rejected"@);
    assert(occurs_at(second, "authentication rejected"@, at));
    if occurs_in(message, "rejected token"@) {
        let phrase = "rejected token"@;
        let found = choose|found: int| occurs_at(message, phrase, found);
        assert(message.subrange(found, found + phrase.len()) == phrase);
    } else if occurs_in(message, "authentication rejected"@) {
        let phrase = "authentication rejected"@;
        let found = choose|found: int| occurs_at(message, phrase, found);
        assert(message.subrange(found, found + phrase.len()) == phrase);
    }
}

/// The directory is asked for at the authority of the server's URL, over HTTP
/// and at the path at which the API lists services; a URL that is not absolute,
/// not HTTP or without an authority is refused.
pub proof fn law_directory_is_asked_for(scheme: Seq<char>, authority: Seq<char>)
    ensures
        directory_url(Some((Some("http"@), Some(authority)))) == Ok::<_, ServerUrlError>(
            "http://"@ + authority + "/v1/services"@,
        ),
        directory_url(None) == Err::<Seq<char>, _>(ServerUrlError::NotAbsolute),
        directory_url(Some((None, Some(authority)))) == Err::<Seq<char>, _>(
            ServerUrlError::NoScheme,
        ),
        directory_url(Some((None, None))) == Err::<Seq<char>, _>(ServerUrlError::NoScheme),
        scheme != "http"@ ==> directory_url(Some((Some(scheme), Some(authority)))) == Err::<
            Seq<char>,
            _,
        >(ServerUrlError::NotHttp),
        scheme != "http"@ ==> directory_url(Some((Some(scheme), None))) == Err::<Seq<char>, _>(
            ServerUrlError::NotHttp,
        ),
        directory_url(Some((Some("http"@), None))) == Err::<Seq<char>, _>(
            ServerUrlError::NoAuthority,
        ),
{
}

/// The model of a client's session shows all of its fields.
pub proof fn law_client_is_shown(client: ClientSession)
    ensures
        client@.phase == client.phase,
        client@.transport == client.transport,
        client@.token == client.token@,
        client@.node_id == client.node_id,
        client@.metadata == client.metadata@,
        client@.public_key == client.public_key@,
        client@.service is Some <==> client.service is Some,
        client.service matches Some(service) ==> client@.service == Some(service@),
        client@.sequence == client.sequence,
        client@.once == client.once,
{
}

/// The model of what is to be done shows what it is and all that belongs to it.
pub proof fn law_client_step_is_shown(step: ClientStep)
    ensures
        match step {
            ClientStep::Send(frame) => step@ is Send && step@->Send_0 == frame@,
            ClientStep::Register(node, service) => {
                &&& step@ is Register
                &&& step@->Register_0 == node@
                &&& step@->Register_1 is Some <==> service is Some
                &&& service matches Some(frame) ==> step@->Register_1 == Some(frame@)
            },
            ClientStep::Published { service_id, local_address, line } => {
                &&& step@ is Published
                &&& step@->service_id == service_id
                &&& step@->local_address == local_address@
                &&& step@->line == line@
            },
            ClientStep::Alive(line) => step@ is Alive && step@->Alive_0 == line@,
            ClientStep::Finish(line, frame) => step@ is Finish && step@->Finish_0 == line@
                && step@->Finish_1 == frame@,
            ClientStep::Fail(error) => step@ is Fail && step@->Fail_0 == error@,
        },
{
}

} // verus!
