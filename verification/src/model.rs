//! Records shared by the relay server, its clients and the control API.

use vstd::prelude::*;
use crate::ids::{EventId, NodeId, ServiceId};
use crate::metadata::Metadata;

verus! {

/// What a token allows its bearer to do.
#[derive(Clone, Copy, Debug, PartialEq, Eq, Structural)]
pub enum TokenKind {
    Admin,
    User,
}

/// How a service is reached from outside.
#[derive(Clone, Copy, Debug, PartialEq, Eq, Structural)]
pub enum Protocol {
    Http,
    Https,
    Tcp,
}

/// How a node is connected to the relay.
#[derive(Clone, Copy, Debug, PartialEq, Eq, Structural)]
pub enum TransportKind {
    Quic,
    TcpTlsYamux,
}

#[derive(Clone, Copy, Debug, PartialEq, Eq, Structural)]
pub enum ServiceStatus {
    Online,
    Offline,
}

#[derive(Clone, Copy, Debug, PartialEq, Eq, Structural)]
pub enum NodeStatus {
    Online,
    Offline,
}

#[derive(Clone, Copy, Debug, PartialEq, Eq, Structural)]
pub enum EventKind {
    NodeOnline,
    NodeOffline,
    ServiceRegistered,
    ServiceDeleted,
    TokenRotated,
    TokenRevoked,
}

/// What a node reports of itself.
#[derive(Debug, PartialEq, Eq)]
pub struct NodeMetadata {
    pub hostname: String,
    pub os: String,
    pub arch: String,
    pub client_version: String,
    pub metadata: Metadata,
}

/// `NodeMetadata` with its texts as sequences of characters.
#[verifier::ext_equal]
pub struct NodeMetadataModel {
    pub hostname: Seq<char>,
    pub os: Seq<char>,
    pub arch: Seq<char>,
    pub client_version: Seq<char>,
    pub metadata: Seq<(Seq<char>, Seq<char>)>,
}

impl View for NodeMetadata {
    type V = NodeMetadataModel;

    open spec fn view(&self) -> NodeMetadataModel {
        NodeMetadataModel {
            hostname: self.hostname@,
            os: self.os@,
            arch: self.arch@,
            client_version: self.client_version@,
            metadata: self.metadata@,
        }
    }
}

impl Clone for NodeMetadata {
    fn clone(&self) -> (r: Self)
        ensures
            r@ == self@,
    {
        NodeMetadata {
            hostname: self.hostname.clone(),
            os: self.os.clone(),
            arch: self.arch.clone(),
            client_version: self.client_version.clone(),
            metadata: self.metadata.clone(),
        }
    }
}

/// The bytes of an optional key.
pub open spec fn key_bytes(key: Option<[u8; 32]>) -> Option<Seq<u8>> {
    match key {
        Some(bytes) => Some(bytes@),
        None => None,
    }
}

/// The characters of an optional text.
pub open spec fn text_view(text: Option<String>) -> Option<Seq<char>> {
    match text {
        Some(s) => Some(s@),
        None => None,
    }
}

/// A copy of an optional text.
pub fn copy_text(text: &Option<String>) -> (r: Option<String>)
    ensures
        text_view(r) == text_view(*text),
{
    match text {
        Some(s) => Some(s.clone()),
        None => None,
    }
}

/// What the relay knows of a node.
#[derive(Debug, PartialEq, Eq)]
pub struct NodeRecord {
    pub node_id: NodeId,
    pub public_key: Option<[u8; 32]>,
    pub metadata: NodeMetadata,
    pub public_ip: String,
    pub source_port: u16,
    pub transport: TransportKind,
    pub status: NodeStatus,
    pub connected_at_unix_ms: i64,
    pub last_heartbeat_at_unix_ms: Option<i64>,
    pub rtt_ms: Option<u32>,
}

/// `NodeRecord` with its texts as sequences of characters.
#[verifier::ext_equal]
pub struct NodeModel {
    pub node_id: NodeId,
    pub public_key: Option<Seq<u8>>,
    pub metadata: NodeMetadataModel,
    pub public_ip: Seq<char>,
    pub source_port: u16,
    pub transport: TransportKind,
    pub status: NodeStatus,
    pub connected_at_unix_ms: i64,
    pub last_heartbeat_at_unix_ms: Option<i64>,
    pub rtt_ms: Option<u32>,
}

impl View for NodeRecord {
    type V = NodeModel;

    open spec fn view(&self) -> NodeModel {
        NodeModel {
            node_id: self.node_id,
            public_key: key_bytes(self.public_key),
            metadata: self.metadata@,
            public_ip: self.public_ip@,
            source_port: self.source_port,
            transport: self.transport,
            status: self.status,
            connected_at_unix_ms: self.connected_at_unix_ms,
            last_heartbeat_at_unix_ms: self.last_heartbeat_at_unix_ms,
            rtt_ms: self.rtt_ms,
        }
    }
}

impl Clone for NodeRecord {
    fn clone(&self) -> (r: Self)
        ensures
            r@ == self@,
    {
        NodeRecord {
            node_id: self.node_id,
            public_key: self.public_key,
            metadata: self.metadata.clone(),
            public_ip: self.public_ip.clone(),
            source_port: self.source_port,
            transport: self.transport,
            status: self.status,
            connected_at_unix_ms: self.connected_at_unix_ms,
            last_heartbeat_at_unix_ms: self.last_heartbeat_at_unix_ms,
            rtt_ms: self.rtt_ms,
        }
    }
}

/// A service in the directory.
#[derive(Debug, PartialEq, Eq)]
pub struct ServiceDefinition {
    pub service_id: ServiceId,
    pub service_name: String,
    pub node_id: NodeId,
    pub protocol: Protocol,
    pub local_address: String,
    pub public_host: Option<String>,
    pub public_port: Option<u16>,
    pub metadata: Metadata,
}

/// `ServiceDefinition` with its texts as sequences of characters.
#[verifier::ext_equal]
pub struct ServiceModel {
    pub service_id: ServiceId,
    pub service_name: Seq<char>,
    pub node_id: NodeId,
    pub protocol: Protocol,
    pub local_address: Seq<char>,
    pub public_host: Option<Seq<char>>,
    pub public_port: Option<u16>,
    pub metadata: Seq<(Seq<char>, Seq<char>)>,
}

impl View for ServiceDefinition {
    type V = ServiceModel;

    open spec fn view(&self) -> ServiceModel {
        ServiceModel {
            service_id: self.service_id,
            service_name: self.service_name@,
            node_id: self.node_id,
            protocol: self.protocol,
            local_address: self.local_address@,
            public_host: text_view(self.public_host),
            public_port: self.public_port,
            metadata: self.metadata@,
        }
    }
}

impl Clone for ServiceDefinition {
    fn clone(&self) -> (r: Self)
        ensures
            r@ == self@,
    {
        ServiceDefinition {
            service_id: self.service_id,
            service_name: self.service_name.clone(),
            node_id: self.node_id,
            protocol: self.protocol,
            local_address: self.local_address.clone(),
            public_host: copy_text(&self.public_host),
            public_port: self.public_port,
            metadata: self.metadata.clone(),
        }
    }
}

/// A single-precision number, held as its bits: the relay stores and forwards
/// load figures and never computes with them.
#[derive(Clone, Copy, Debug, PartialEq, Eq, Structural)]
pub struct LoadFigure(pub u32);

/// The load of a node at one heartbeat.
#[derive(Clone, Copy, Debug, PartialEq, Eq, Structural)]
pub struct HeartbeatSnapshot {
    pub sequence: u64,
    pub sent_at_unix_ms: i64,
    pub cpu_percent: Option<LoadFigure>,
    pub memory_percent: Option<LoadFigure>,
    pub load_average: Option<LoadFigure>,
    pub network_rx_bytes: Option<u64>,
    pub network_tx_bytes: Option<u64>,
}

impl Default for HeartbeatSnapshot {
    fn default() -> (r: Self)
        ensures
            r == (HeartbeatSnapshot {
                sequence: 0,
                sent_at_unix_ms: 0,
                cpu_percent: None,
                memory_percent: None,
                load_average: None,
                network_rx_bytes: None,
                network_tx_bytes: None,
            }),
    {
        HeartbeatSnapshot {
            sequence: 0,
            sent_at_unix_ms: 0,
            cpu_percent: None,
            memory_percent: None,
            load_average: None,
            network_rx_bytes: None,
            network_tx_bytes: None,
        }
    }
}

/// One heartbeat of a node as the relay recorded it.
#[derive(Clone, Copy, Debug, PartialEq, Eq, Structural)]
pub struct NodeMetric {
    pub node_id: NodeId,
    pub recorded_at_unix_ms: i64,
    pub rtt_ms: Option<u32>,
    pub snapshot: HeartbeatSnapshot,
}

/// Something that happened in the control plane.
#[derive(Clone, Copy, Debug, PartialEq, Eq, Structural)]
pub struct ControlEvent {
    pub event_id: EventId,
    pub occurred_at_unix_ms: i64,
    pub kind: EventKind,
    pub node_id: Option<NodeId>,
    pub service_id: Option<ServiceId>,
    pub token_kind: Option<TokenKind>,
}

/// The model of a service shows all of its fields.
pub proof fn law_service_is_shown(service: ServiceDefinition)
    ensures
        service@.service_id == service.service_id,
        service@.service_name == service.service_name@,
        service@.node_id == service.node_id,
        service@.protocol == service.protocol,
        service@.local_address == service.local_address@,
        service@.public_host is Some <==> service.public_host is Some,
        service.public_host matches Some(host) ==> service@.public_host == Some(host@),
        service@.public_port == service.public_port,
        service@.metadata == service.metadata@,
{
}

/// The model of a node shows all that is recorded of it.
pub proof fn law_node_is_shown(node: NodeRecord)
    ensures
        node@.node_id == node.node_id,
        node@.public_key is Some <==> node.public_key is Some,
        node.public_key matches Some(key) ==> node@.public_key == Some(key@),
        node@.metadata.hostname == node.metadata.hostname@,
        node@.metadata.os == node.metadata.os@,
        node@.metadata.arch == node.metadata.arch@,
        node@.metadata.client_version == node.metadata.client_version@,
        node@.metadata.metadata == node.metadata.metadata@,
        node@.public_ip == node.public_ip@,
        node@.source_port == node.source_port,
        node@.transport == node.transport,
        node@.status == node.status,
        node@.connected_at_unix_ms == node.connected_at_unix_ms,
        node@.last_heartbeat_at_unix_ms == node.last_heartbeat_at_unix_ms,
        node@.rtt_ms == node.rtt_ms,
{
}

} // verus!
