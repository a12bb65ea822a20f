//! Data streams: how the relay asks a node for a connection to a local target
//! and what the node answers.

use std::collections::BTreeMap;
use vstd::prelude::*;
use crate::frame::{Frame, FrameModel};
use crate::ids::{is_version_7, ServiceId, TunnelId};
use crate::relay::{route, route_to_service, RouteError};
use crate::state::{ActiveSession, AppState};
use crate::table;
use crate::text::joined;

verus! {

/// A stream that is to be opened over the session of a node.
#[derive(Debug)]
pub struct StreamRequest {
    pub session: ActiveSession,
    pub tunnel_id: TunnelId,
    /// The first message on the stream.
    pub request: Frame,
}

/// Decides how a visitor of a service is connected: over the session of the
/// node that publishes it, in a new tunnel.
pub fn request_stream(state: &AppState, service_id: ServiceId) -> (r: Result<
    StreamRequest,
    RouteError,
>)
    ensures
        match r {
            Ok(stream) => {
                &&& route(state@, service_id) == Ok::<_, RouteError>(stream.session)
                &&& is_version_7(stream.tunnel_id.0)
                &&& stream.request@ == (FrameModel::OpenStream {
                    tunnel_id: stream.tunnel_id,
                    service_id,
                })
            },
            Err(error) => route(state@, service_id) == Err::<ActiveSession, _>(error),
        },
{
    match route_to_service(state, service_id) {
        Ok(session) => {
            let tunnel_id = TunnelId::new();
            Ok(
                StreamRequest {
                    session,
                    tunnel_id,
                    request: Frame::OpenStream { tunnel_id, service_id },
                },
            )
        },
        Err(error) => Err(error),
    }
}

/// Why a stream is not usable for a visitor.
#[derive(Debug, PartialEq, Eq)]
pub enum AckError {
    /// The node could not reach its local target, for this reason.
    Rejected(String),
    Invalid,
}

/// `AckError` with its text as a sequence of characters.
pub enum AckFault {
    Rejected(Seq<char>),
    Invalid,
}

impl View for AckError {
    type V = AckFault;

    open spec fn view(&self) -> AckFault {
        match self {
            AckError::Rejected(message) => AckFault::Rejected(message@),
            AckError::Invalid => AckFault::Invalid,
        }
    }
}

impl AckError {
    /// The error as a text for people.
    pub fn message(&self) -> (r: String)
        ensures
            r@ == match self@ {
                AckFault::Rejected(message) => "client rejected local target: "@ + message,
                AckFault::Invalid => "client returned an invalid data stream acknowledgement"@,
            },
    {
        match self {
            AckError::Rejected(message) => joined(
                "client rejected local target: ",
                message.as_str(),
            ),
            AckError::Invalid =>
                "client returned an invalid data stream acknowledgement".to_owned(),
        }
    }
}

/// What the answer of a node to the request for a stream means.
pub open spec fn acknowledged(answer: FrameModel, tunnel_id: TunnelId) -> Result<(), AckFault> {
    match answer {
        FrameModel::OpenStreamAck { tunnel_id: ack } => if ack == tunnel_id {
            Ok(())
        } else {
            Err(AckFault::Invalid)
        },
        FrameModel::Error { message } => Err(AckFault::Rejected(message)),
        _ => Err(AckFault::Invalid),
    }
}

/// Reads the answer of a node to the request for a stream.
pub fn check_stream_ack(answer: Frame, tunnel_id: TunnelId) -> (r: Result<(), AckError>)
    ensures
        match r {
            Ok(_) => acknowledged(answer@, tunnel_id) is Ok,
            Err(error) => acknowledged(answer@, tunnel_id) == Err::<(), _>(error@),
        },
{
    match answer {
        Frame::OpenStreamAck { tunnel_id: ack } => if ack == tunnel_id {
            Ok(())
        } else {
            Err(AckError::Invalid)
        },
        Frame::Error { message } => Err(AckError::Rejected(message)),
        _ => Err(AckError::Invalid),
    }
}

/// Why a node gives up on a stream that the relay opened.
#[derive(Clone, Copy, Debug, PartialEq, Eq, Structural)]
pub enum DataStreamError {
    ExpectedOpenStream,
    UnknownService,
}

impl DataStreamError {
    /// The error as a text for people.
    pub fn message(&self) -> (r: String)
        ensures
            r@ == match self {
                DataStreamError::ExpectedOpenStream =>
                    "expected OpenStream as first data stream frame"@,
                DataStreamError::UnknownService => "server requested an unknown service"@,
            },
    {
        match self {
            DataStreamError::ExpectedOpenStream =>
                "expected OpenStream as first data stream frame".to_owned(),
            DataStreamError::UnknownService => "server requested an unknown service".to_owned(),
        }
    }
}

/// What a node does about the first message of a stream: the tunnel and the
/// local address to connect to. `published` holds the local addresses of the
/// services that the node publishes.
pub open spec fn local_target(frame: FrameModel, published: Map<u128, String>) -> Result<
    (TunnelId, Seq<char>),
    DataStreamError,
> {
    match frame {
        FrameModel::OpenStream { tunnel_id, service_id } => if published.contains_key(
            service_id.0,
        ) {
            Ok((tunnel_id, published[service_id.0]@))
        } else {
            Err(DataStreamError::UnknownService)
        },
        _ => Err(DataStreamError::ExpectedOpenStream),
    }
}

/// Finds what a node has to connect to for a stream that the relay opened.
pub fn find_local_target(frame: &Frame, published: &BTreeMap<u128, String>) -> (r: Result<
    (TunnelId, String),
    DataStreamError,
>)
    ensures
        match r {
            Ok((tunnel_id, address)) => local_target(frame@, published@) == Ok::<
                _,
                DataStreamError,
            >((tunnel_id, address@)),
            Err(error) => local_target(frame@, published@) == Err::<(TunnelId, Seq<char>), _>(
                error,
            ),
        },
{
    match frame {
        Frame::OpenStream { tunnel_id, service_id } => match table::find(
            published,
            service_id.0,
        ) {
            Some(address) => Ok((*tunnel_id, address.clone())),
            None => Err(DataStreamError::UnknownService),
        },
        _ => Err(DataStreamError::ExpectedOpenStream),
    }
}

/// How the connection to a local target went.
#[derive(Debug)]
pub enum LocalConnection {
    Connected,
    Failed(String),
    TimedOut,
}

/// What a node answers to the relay: an acknowledgement, after which the stream
/// carries bytes, or the reason why there is no connection.
pub fn stream_answer(tunnel_id: TunnelId, address: &str, local: &LocalConnection) -> (r: Frame)
    ensures
        r@ == match local {
            LocalConnection::Connected => FrameModel::OpenStreamAck { tunnel_id },
            LocalConnection::Failed(error) => FrameModel::Error {
                message: "failed to connect to "@ + address@ + ": "@ + error@,
            },
            LocalConnection::TimedOut => FrameModel::Error {
                message: "timed out connecting to "@ + address@,
            },
        },
{
    match local {
        LocalConnection::Connected => Frame::OpenStreamAck { tunnel_id },
        LocalConnection::Failed(error) => {
            let mut message = joined("failed to connect to ", address);
            message.append(": ");
            message.append(error.as_str());
            Frame::Error { message }
        },
        LocalConnection::TimedOut => Frame::Error {
            message: joined("timed out connecting to ", address),
        },
    }
}

/// The two ends agree: where the node publishes the service and reaches its
/// target, the relay takes the node's answer as an acknowledgement; where it
/// does not, the relay learns the node's reason.
pub proof fn law_ends_agree_on_stream(
    tunnel_id: TunnelId,
    service_id: ServiceId,
    published: Map<u128, String>,
    reason: Seq<char>,
)
    requires
        published.contains_key(service_id.0),
    ensures
        local_target(FrameModel::OpenStream { tunnel_id, service_id }, published) == Ok::<
            _,
            DataStreamError,
        >((tunnel_id, published[service_id.0]@)),
        acknowledged(FrameModel::OpenStreamAck { tunnel_id }, tunnel_id) is Ok,
        acknowledged(FrameModel::Error { message: reason }, tunnel_id) == Err::<(), _>(
            AckFault::Rejected(reason),
        ),
{
}

/// A node connects a stream to the local address of the service that is asked
/// for, in the tunnel that is asked for, and to nothing else.
pub proof fn law_stream_goes_to_the_local_address(frame: FrameModel, published: Map<u128, String>)
    ensures
        match local_target(frame, published) {
            Ok((tunnel_id, address)) => {
                &&& frame is OpenStream
                &&& frame->OpenStream_tunnel_id == tunnel_id
                &&& published.contains_key(frame->OpenStream_service_id.0)
                &&& address == published[frame->OpenStream_service_id.0]@
            },
            Err(DataStreamError::UnknownService) => frame is OpenStream && !published.contains_key(
                frame->OpenStream_service_id.0,
            ),
            Err(DataStreamError::ExpectedOpenStream) => !(frame is OpenStream),
        },
{
}

/// A stream is used for a visitor exactly if the node acknowledges the tunnel
/// that it was opened for.
pub proof fn law_stream_needs_its_own_acknowledgement(answer: FrameModel, tunnel_id: TunnelId)
    ensures
        acknowledged(answer, tunnel_id) is Ok <==> answer is OpenStreamAck
            && answer->OpenStreamAck_tunnel_id == tunnel_id,
        acknowledged(answer, tunnel_id) matches Err(AckFault::Rejected(reason)) ==> answer is Error
            && answer->message == reason,
        answer is Error ==> acknowledged(answer, tunnel_id) is Err && acknowledged(
            answer,
            tunnel_id,
        )->Err_0 is Rejected,
{
}

} // verus!
