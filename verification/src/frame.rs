//! The messages of the control protocol.

use bytes::Bytes;
use vstd::prelude::*;
use crate::codec::shared_bytes;
use crate::ids::{NodeId, ServiceId, TunnelId};
use crate::model::{
    HeartbeatSnapshot, NodeMetadata, NodeMetadataModel, ServiceDefinition, ServiceModel, TokenKind,
};

verus! {

/// A message of the control protocol.
#[derive(Debug)]
pub enum Frame {
    Hello { version: u16 },
    Auth { token: String, node_id: NodeId },
    AuthAccepted { kind: TokenKind },
    AuthRejected,
    RegisterNode { metadata: NodeMetadata, public_key: [u8; 32] },
    RegisterService { service: ServiceDefinition },
    RegisterServiceAccepted { service: ServiceDefinition },
    UnregisterService { service_id: ServiceId },
    ServiceList { services: Vec<ServiceDefinition> },
    Heartbeat { snapshot: HeartbeatSnapshot },
    HeartbeatAck { sequence: u64, server_time_unix_ms: i64 },
    OpenStream { tunnel_id: TunnelId, service_id: ServiceId },
    OpenStreamAck { tunnel_id: TunnelId },
    StreamData { tunnel_id: TunnelId, data: Bytes },
    CloseStream { tunnel_id: TunnelId },
    Error { message: String },
    Goodbye,
}

/// `Frame` with its texts and bytes as sequences.
pub enum FrameModel {
    Hello { version: u16 },
    Auth { token: Seq<char>, node_id: NodeId },
    AuthAccepted { kind: TokenKind },
    AuthRejected,
    RegisterNode { metadata: NodeMetadataModel, public_key: Seq<u8> },
    RegisterService { service: ServiceModel },
    RegisterServiceAccepted { service: ServiceModel },
    UnregisterService { service_id: ServiceId },
    ServiceList { services: Seq<ServiceModel> },
    Heartbeat { snapshot: HeartbeatSnapshot },
    HeartbeatAck { sequence: u64, server_time_unix_ms: i64 },
    OpenStream { tunnel_id: TunnelId, service_id: ServiceId },
    OpenStreamAck { tunnel_id: TunnelId },
    StreamData { tunnel_id: TunnelId, data: Seq<u8> },
    CloseStream { tunnel_id: TunnelId },
    Error { message: Seq<char> },
    Goodbye,
}

impl View for Frame {
    type V = FrameModel;

    open spec fn view(&self) -> FrameModel {
        match *self {
            Frame::Hello { version } => FrameModel::Hello { version },
            Frame::Auth { token, node_id } => FrameModel::Auth { token: token@, node_id },
            Frame::AuthAccepted { kind } => FrameModel::AuthAccepted { kind },
            Frame::AuthRejected => FrameModel::AuthRejected,
            Frame::RegisterNode { metadata, public_key } => FrameModel::RegisterNode {
                metadata: metadata@,
                public_key: public_key@,
            },
            Frame::RegisterService { service } => FrameModel::RegisterService { service: service@ },
            Frame::RegisterServiceAccepted { service } => FrameModel::RegisterServiceAccepted {
                service: service@,
            },
            Frame::UnregisterService { service_id } => FrameModel::UnregisterService { service_id },
            Frame::ServiceList { services } => FrameModel::ServiceList {
                services: services@.map_values(|s: ServiceDefinition| s@),
            },
            Frame::Heartbeat { snapshot } => FrameModel::Heartbeat { snapshot },
            Frame::HeartbeatAck { sequence, server_time_unix_ms } => FrameModel::HeartbeatAck {
                sequence,
                server_time_unix_ms,
            },
            Frame::OpenStream { tunnel_id, service_id } => FrameModel::OpenStream {
                tunnel_id,
                service_id,
            },
            Frame::OpenStreamAck { tunnel_id } => FrameModel::OpenStreamAck { tunnel_id },
            Frame::StreamData { tunnel_id, data } => FrameModel::StreamData {
                tunnel_id,
                data: shared_bytes(data),
            },
            Frame::CloseStream { tunnel_id } => FrameModel::CloseStream { tunnel_id },
            Frame::Error { message } => FrameModel::Error { message: message@ },
            Frame::Goodbye => FrameModel::Goodbye,
        }
    }
}

/// The message that tells a peer of an error.
pub fn error_frame(message: &str) -> (r: Frame)
    ensures
        r@ == (FrameModel::Error { message: message@ }),
{
    Frame::Error { message: message.to_owned() }
}

/// The model of a message shows which message it is and all that it carries.
pub proof fn law_frame_is_shown(frame: Frame)
    ensures
        match frame {
            Frame::Hello { version } => frame@ == FrameModel::Hello { version },
            Frame::Auth { token, node_id } => frame@ is Auth && frame@->token == token@
                && frame@->Auth_node_id == node_id,
            Frame::AuthAccepted { kind } => frame@ == FrameModel::AuthAccepted { kind },
            Frame::AuthRejected => frame@ is AuthRejected,
            Frame::RegisterNode { metadata, public_key } => frame@ is RegisterNode
                && frame@->metadata == metadata@ && frame@->public_key == public_key@,
            Frame::RegisterService { service } => frame@ is RegisterService
                && frame@->RegisterService_service == service@,
            Frame::RegisterServiceAccepted { service } => frame@ is RegisterServiceAccepted
                && frame@->RegisterServiceAccepted_service == service@,
            Frame::UnregisterService { service_id } => frame@ == FrameModel::UnregisterService {
                service_id,
            },
            Frame::ServiceList { services } => frame@ is ServiceList && frame@->services.len()
                == services@.len() && forall|i: int|
                0 <= i < services@.len() ==> #[trigger] frame@->services[i] == services@[i]@,
            Frame::Heartbeat { snapshot } => frame@ == FrameModel::Heartbeat { snapshot },
            Frame::HeartbeatAck { sequence, server_time_unix_ms } => frame@
                == FrameModel::HeartbeatAck { sequence, server_time_unix_ms },
            Frame::OpenStream { tunnel_id, service_id } => frame@ == FrameModel::OpenStream {
                tunnel_id,
                service_id,
            },
            Frame::OpenStreamAck { tunnel_id } => frame@ == FrameModel::OpenStreamAck { tunnel_id },
            Frame::StreamData { tunnel_id, data } => frame@ is StreamData && frame@->data
                == shared_bytes(data) && frame@->StreamData_tunnel_id == tunnel_id,
            Frame::CloseStream { tunnel_id } => frame@ == FrameModel::CloseStream { tunnel_id },
            Frame::Error { message } => frame@ is Error && frame@->message == message@,
            Frame::Goodbye => frame@ is Goodbye,
        },
{
}

} // verus!
