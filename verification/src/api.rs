//! The control API: which request asks for what, who may ask, and the answer.

use hyper::header::HeaderValue;
use hyper::HeaderMap;
use vstd::prelude::*;
use crate::headers::{field_text, header_fields, header_text, valid_name};
use crate::ids::{
    id_text, is_version_7, law_id_reads_back, law_id_texts_differ, lemma_uuid_text_has_no_slash,
    lemma_uuid_text_len, parse_id, parsed_uuid, spells, uuid_text, NodeId, ServiceId, TunnelId,
};
use crate::metadata::Metadata;
use crate::model::{
    key_bytes, NodeModel, NodeRecord, NodeStatus, Protocol, ServiceDefinition, ServiceModel,
    ServiceStatus, TokenKind, TransportKind,
};
use crate::relay::{
    after_listening, is_reachable, law_http_service_is_below_the_domain, law_published_as_asked,
    law_tcp_service_is_at_the_relay, register_service, registration, settle_publication,
    with_service,
};
use crate::session::{authenticate_token, token_kind_of};
use crate::state::{
    after_replacement, after_session, law_replacement_is_exact,
    law_session_end_takes_its_node_offline, replace_token, tells_of_admitted, AppState,
    Disconnected, StateModel,
};
use crate::table;
use crate::table::{first_match, first_where, lemma_first_match_view};
use crate::text::{has_prefix, has_suffix, lower_text, same_text, strip_prefix, strip_suffix};
use crate::token::{generate_token, token_hash, token_text, TokenState};

verus! {

/// The longest request body that is read, in bytes.
pub const MAX_API_BODY_BYTES: usize = 16384;

/// The methods that the API tells apart.
#[derive(Clone, Copy, Debug, PartialEq, Eq, Structural)]
pub enum Method {
    Get,
    Post,
    Delete,
    Other,
}

/// Why a request is refused.
#[derive(Clone, Copy, Debug, PartialEq, Eq, Structural)]
pub enum ApiFault {
    AdminRequired,
    InvalidBearer,
    InvalidTokenMutation,
    RotationFailed,
    RevocationFailed,
    NodeNotFound,
    MetricsFailed,
    EventsFailed,
    InvalidServiceRequest,
    ServiceRequestTooLarge,
    NodeOffline,
    ServiceRejected,
    InvalidServiceId,
    ServiceNotFound,
    DeletionFailed,
    RouteNotFound,
}

/// The HTTP status of a refusal.
pub open spec fn fault_status(fault: ApiFault) -> u16 {
    match fault {
        ApiFault::AdminRequired | ApiFault::InvalidBearer => 401,
        ApiFault::InvalidTokenMutation | ApiFault::InvalidServiceRequest => 400,
        ApiFault::ServiceRejected | ApiFault::InvalidServiceId => 400,
        ApiFault::RotationFailed | ApiFault::RevocationFailed => 500,
        ApiFault::MetricsFailed | ApiFault::EventsFailed | ApiFault::DeletionFailed => 500,
        ApiFault::NodeNotFound | ApiFault::ServiceNotFound | ApiFault::RouteNotFound => 404,
        ApiFault::ServiceRequestTooLarge => 413,
        ApiFault::NodeOffline => 409,
    }
}

/// The text of a refusal.
pub open spec fn fault_message(fault: ApiFault) -> Seq<char> {
    match fault {
        ApiFault::AdminRequired => "admin bearer token required"@,
        ApiFault::InvalidBearer => "invalid bearer token"@,
        ApiFault::InvalidTokenMutation => "invalid token mutation request"@,
        ApiFault::RotationFailed => "failed to rotate token"@,
        ApiFault::RevocationFailed => "failed to revoke token"@,
        ApiFault::NodeNotFound => "node not found"@,
        ApiFault::MetricsFailed => "failed to load node metrics"@,
        ApiFault::EventsFailed => "failed to load events"@,
        ApiFault::InvalidServiceRequest => "invalid service request"@,
        ApiFault::ServiceRequestTooLarge => "service request is too large"@,
        ApiFault::NodeOffline => "node is offline"@,
        ApiFault::ServiceRejected => "service could not be created"@,
        ApiFault::InvalidServiceId => "invalid service id"@,
        ApiFault::ServiceNotFound => "service not found"@,
        ApiFault::DeletionFailed => "failed to delete service"@,
        ApiFault::RouteNotFound => "route not found"@,
    }
}

impl ApiFault {
    /// The HTTP status of a refusal.
    pub fn status(&self) -> (r: u16)
        ensures
            r == fault_status(*self),
    {
        match self {
            ApiFault::AdminRequired | ApiFault::InvalidBearer => 401,
            ApiFault::InvalidTokenMutation | ApiFault::InvalidServiceRequest => 400,
            ApiFault::ServiceRejected | ApiFault::InvalidServiceId => 400,
            ApiFault::RotationFailed | ApiFault::RevocationFailed => 500,
            ApiFault::MetricsFailed | ApiFault::EventsFailed | ApiFault::DeletionFailed => 500,
            ApiFault::NodeNotFound | ApiFault::ServiceNotFound | ApiFault::RouteNotFound => 404,
            ApiFault::ServiceRequestTooLarge => 413,
            ApiFault::NodeOffline => 409,
        }
    }

    /// The text of a refusal.
    pub fn message(&self) -> (r: &'static str)
        ensures
            r@ == fault_message(*self),
    {
        match self {
            ApiFault::AdminRequired => "admin bearer token required",
            ApiFault::InvalidBearer => "invalid bearer token",
            ApiFault::InvalidTokenMutation => "invalid token mutation request",
            ApiFault::RotationFailed => "failed to rotate token",
            ApiFault::RevocationFailed => "failed to revoke token",
            ApiFault::NodeNotFound => "node not found",
            ApiFault::MetricsFailed => "failed to load node metrics",
            ApiFault::EventsFailed => "failed to load events",
            ApiFault::InvalidServiceRequest => "invalid service request",
            ApiFault::ServiceRequestTooLarge => "service request is too large",
            ApiFault::NodeOffline => "node is offline",
            ApiFault::ServiceRejected => "service could not be created",
            ApiFault::InvalidServiceId => "invalid service id",
            ApiFault::ServiceNotFound => "service not found",
            ApiFault::DeletionFailed => "failed to delete service",
            ApiFault::RouteNotFound => "route not found",
        }
    }
}

/// The kind of the bearer token of a request, if it has one that is in force.
pub open spec fn bearer_kind(
    fields: Map<Seq<char>, Seq<Seq<u8>>>,
    state: StateModel,
) -> Option<TokenKind> {
    match field_text(fields, "authorization"@) {
        Some(raw) => if has_prefix(raw, "Bearer "@) {
            token_kind_of(state, raw.skip("Bearer "@.len() as int))
        } else {
            None
        },
        None => None,
    }
}

/// The kind of the bearer token of a request, if it has one that is in force.
pub fn authenticate(headers: &HeaderMap<HeaderValue>, state: &AppState) -> (r: Option<TokenKind>)
    ensures
        r == bearer_kind(header_fields(*headers), state@),
{
    proof {
        reveal_strlit("authorization");
        assert(lower_text("authorization"@) =~= "authorization"@);
        assert(valid_name("authorization"@));
    }
    match header_text(headers, "authorization") {
        Some(raw) => match strip_prefix(raw.as_str(), "Bearer ") {
            Some(token) => authenticate_token(token.as_str(), state),
            None => None,
        },
        None => None,
    }
}

/// What an admin may do to a token.
#[derive(Clone, Copy, Debug, PartialEq, Eq, Structural)]
pub enum TokenMutation {
    Rotate,
    Revoke,
}

/// What a request asks for.
#[derive(Debug)]
pub enum Route {
    MutateToken(TokenMutation),
    Nodes,
    Node(String),
    NodeMetrics(String),
    CreateService,
    Service(String),
    Health,
    ValidateToken,
    Services,
    Events,
    Unknown,
}

/// `Route` with its texts as sequences of characters.
pub enum RouteModel {
    MutateToken(TokenMutation),
    Nodes,
    Node(Seq<char>),
    NodeMetrics(Seq<char>),
    CreateService,
    Service(Seq<char>),
    Health,
    ValidateToken,
    Services,
    Events,
    Unknown,
}

impl View for Route {
    type V = RouteModel;

    open spec fn view(&self) -> RouteModel {
        match self {
            Route::MutateToken(mutation) => RouteModel::MutateToken(*mutation),
            Route::Nodes => RouteModel::Nodes,
            Route::Node(key) => RouteModel::Node(key@),
            Route::NodeMetrics(key) => RouteModel::NodeMetrics(key@),
            Route::CreateService => RouteModel::CreateService,
            Route::Service(key) => RouteModel::Service(key@),
            Route::Health => RouteModel::Health,
            Route::ValidateToken => RouteModel::ValidateToken,
            Route::Services => RouteModel::Services,
            Route::Events => RouteModel::Events,
            Route::Unknown => RouteModel::Unknown,
        }
    }
}

/// What a request with this method and path asks for. A path below
/// `/v1/services/` speaks of a service whatever the method is.
pub open spec fn route_of(method: Method, path: Seq<char>) -> RouteModel {
    if method == Method::Post && path == "/v1/admin/tokens/rotate"@ {
        RouteModel::MutateToken(TokenMutation::Rotate)
    } else if method == Method::Post && path == "/v1/admin/tokens/revoke"@ {
        RouteModel::MutateToken(TokenMutation::Revoke)
    } else if method == Method::Get && path == "/v1/nodes"@ {
        RouteModel::Nodes
    } else if method == Method::Get && has_prefix(path, "/v1/nodes/"@) {
        let key = path.skip("/v1/nodes/"@.len() as int);
        if has_suffix(key, "/metrics"@) {
            RouteModel::NodeMetrics(key.take(key.len() - "/metrics"@.len()))
        } else {
            RouteModel::Node(key)
        }
    } else if method == Method::Post && path == "/v1/services"@ {
        RouteModel::CreateService
    } else if has_prefix(path, "/v1/services/"@) {
        RouteModel::Service(path.skip("/v1/services/"@.len() as int))
    } else if method == Method::Get && (path == "/healthz"@ || path == "/readyz"@) {
        RouteModel::Health
    } else if method == Method::Post && path == "/v1/auth/validate"@ {
        RouteModel::ValidateToken
    } else if method == Method::Get && path == "/v1/services"@ {
        RouteModel::Services
    } else if method == Method::Get && path == "/v1/events"@ {
        RouteModel::Events
    } else {
        RouteModel::Unknown
    }
}

/// What a request with this method and path asks for.
pub fn find_route(method: Method, path: &str) -> (r: Route)
    ensures
        r@ == route_of(method, path@),
{
    if method == Method::Post && same_text(path, "/v1/admin/tokens/rotate") {
        return Route::MutateToken(TokenMutation::Rotate);
    }
    if method == Method::Post && same_text(path, "/v1/admin/tokens/revoke") {
        return Route::MutateToken(TokenMutation::Revoke);
    }
    if method == Method::Get && same_text(path, "/v1/nodes") {
        return Route::Nodes;
    }
    if method == Method::Get {
        if let Some(key) = strip_prefix(path, "/v1/nodes/") {
            return match strip_suffix(key.as_str(), "/metrics") {
                Some(key) => Route::NodeMetrics(key),
                None => Route::Node(key),
            };
        }
    }
    if method == Method::Post && same_text(path, "/v1/services") {
        return Route::CreateService;
    }
    if let Some(key) = strip_prefix(path, "/v1/services/") {
        return Route::Service(key);
    }
    if method == Method::Get && (same_text(path, "/healthz") || same_text(path, "/readyz")) {
        return Route::Health;
    }
    if method == Method::Post && same_text(path, "/v1/auth/validate") {
        return Route::ValidateToken;
    }
    if method == Method::Get && same_text(path, "/v1/services") {
        return Route::Services;
    }
    if method == Method::Get && same_text(path, "/v1/events") {
        return Route::Events;
    }
    Route::Unknown
}

/// What the bearer of a token may do.
pub open spec fn capability_texts(kind: TokenKind) -> Seq<Seq<char>> {
    match kind {
        TokenKind::Admin => seq![
            "services:read"@,
            "services:write"@,
            "nodes:read"@,
            "tokens:write"@,
        ],
        TokenKind::User => seq!["services:read"@, "services:write"@, "nodes:read"@],
    }
}

/// What the bearer of a token may do.
pub fn capabilities(kind: TokenKind) -> (r: Vec<&'static str>)
    ensures
        r@.map_values(|s: &'static str| s@) == capability_texts(kind),
{
    let mut out: Vec<&'static str> = Vec::new();
    out.push("services:read");
    out.push("services:write");
    out.push("nodes:read");
    match kind {
        TokenKind::Admin => out.push("tokens:write"),
        TokenKind::User => {},
    }
    assert(out@.map_values(|s: &'static str| s@) =~= capability_texts(kind));
    out
}

/// The name by which the server makes itself known.
pub fn server_name() -> (r: &'static str)
    ensures
        r@ == "ongrok"@,
{
    "ongrok"
}

/// A service together with the state of its node.
#[derive(Debug)]
pub struct ServiceView {
    pub service: ServiceDefinition,
    pub status: ServiceStatus,
    pub transport: Option<TransportKind>,
    pub last_heartbeat_at_unix_ms: Option<i64>,
    pub rtt_ms: Option<u32>,
}

/// `ServiceView` with its texts as sequences of characters.
#[verifier::ext_equal]
pub struct ServiceViewModel {
    pub service: ServiceModel,
    pub status: ServiceStatus,
    pub transport: Option<TransportKind>,
    pub last_heartbeat_at_unix_ms: Option<i64>,
    pub rtt_ms: Option<u32>,
}

impl View for ServiceView {
    type V = ServiceViewModel;

    open spec fn view(&self) -> ServiceViewModel {
        ServiceViewModel {
            service: self.service@,
            status: self.status,
            transport: self.transport,
            last_heartbeat_at_unix_ms: self.last_heartbeat_at_unix_ms,
            rtt_ms: self.rtt_ms,
        }
    }
}

/// A service together with the state of its node: it is online exactly when the
/// node is.
pub open spec fn viewed(nodes: Map<u128, NodeModel>, service: ServiceModel) -> ServiceViewModel {
    if nodes.contains_key(service.node_id.0) {
        let node = nodes[service.node_id.0];
        ServiceViewModel {
            service,
            status: match node.status {
                NodeStatus::Online => ServiceStatus::Online,
                NodeStatus::Offline => ServiceStatus::Offline,
            },
            transport: Some(node.transport),
            last_heartbeat_at_unix_ms: node.last_heartbeat_at_unix_ms,
            rtt_ms: node.rtt_ms,
        }
    } else {
        ServiceViewModel {
            service,
            status: ServiceStatus::Offline,
            transport: None,
            last_heartbeat_at_unix_ms: None,
            rtt_ms: None,
        }
    }
}

/// A service together with the state of its node.
pub fn service_view(state: &AppState, service: &ServiceDefinition) -> (r: ServiceView)
    ensures
        r@ == viewed(state@.nodes, service@),
{
    match state.node(service.node_id.0) {
        Some(node) => ServiceView {
            service: service.clone(),
            status: match node.status {
                NodeStatus::Online => ServiceStatus::Online,
                NodeStatus::Offline => ServiceStatus::Offline,
            },
            transport: Some(node.transport),
            last_heartbeat_at_unix_ms: node.last_heartbeat_at_unix_ms,
            rtt_ms: node.rtt_ms,
        },
        None => ServiceView {
            service: service.clone(),
            status: ServiceStatus::Offline,
            transport: None,
            last_heartbeat_at_unix_ms: None,
            rtt_ms: None,
        },
    }
}

/// All services in the order of their numbers, with the state of their nodes.
pub open spec fn all_viewed(state: StateModel) -> Seq<ServiceViewModel> {
    table::values_in_order(state.services).map_values(|s: ServiceModel| viewed(state.nodes, s))
}

/// All services in the order of their numbers, with the state of their nodes.
pub fn service_list(state: &AppState) -> (r: Vec<ServiceView>)
    ensures
        r@.map_values(|v: ServiceView| v@) == all_viewed(state@),
{
    let keys = table::keys_of(&state.services);
    proof {
        table::lemma_keys_of_views(state.services@, keys@);
    }
    let mut out: Vec<ServiceView> = Vec::new();
    let mut i: usize = 0;
    while i < keys.len()
        invariant
            i <= keys@.len(),
            i == out@.len(),
            keys@ == table::keys_in_order(state@.services),
            table::lists_keys(keys@, state.services@),
            forall|j: int| 0 <= j < i ==> (#[trigger] out@[j])@ == all_viewed(state@)[j],
        decreases keys@.len() - i,
    {
        let k: u128 = keys[i];
        assert(keys@.contains(k));
        assert(state.services@.contains_key(k));
        if let Some(service) = state.service(k) {
            out.push(service_view(state, service));
        }
        i += 1;
    }
    assert(out@.map_values(|v: ServiceView| v@) =~= all_viewed(state@));
    out
}

/// All nodes in the order of their numbers.
pub fn node_list(state: &AppState) -> (r: Vec<NodeRecord>)
    ensures
        r@.map_values(|n: NodeRecord| n@) == table::values_in_order(state@.nodes),
{
    let keys = table::keys_of(&state.nodes);
    proof {
        table::lemma_keys_of_views(state.nodes@, keys@);
    }
    let mut out: Vec<NodeRecord> = Vec::new();
    let mut i: usize = 0;
    while i < keys.len()
        invariant
            i <= keys@.len(),
            i == out@.len(),
            keys@ == table::keys_in_order(state@.nodes),
            table::lists_keys(keys@, state.nodes@),
            forall|j: int|
                0 <= j < i ==> (#[trigger] out@[j])@ == table::values_in_order(state@.nodes)[j],
        decreases keys@.len() - i,
    {
        let k: u128 = keys[i];
        assert(keys@.contains(k));
        assert(state.nodes@.contains_key(k));
        if let Some(node) = state.node(k) {
            out.push(node.clone());
        }
        i += 1;
    }
    assert(out@.map_values(|n: NodeRecord| n@) =~= table::values_in_order(state@.nodes));
    out
}

/// The node whose identifier has this text, the first by number.
pub open spec fn node_named(nodes: Map<u128, NodeModel>, key: Seq<char>) -> Option<u128> {
    first_match(nodes, |n: NodeModel| uuid_text(n.node_id.0) == key)
}

/// The node whose identifier has this text.
pub fn find_node(state: &AppState, key: &str) -> (r: Option<NodeRecord>)
    ensures
        match r {
            Some(node) => {
                &&& node_named(state@.nodes, key@) is Some
                &&& node@ == state@.nodes[node_named(state@.nodes, key@)->0]
            },
            None => node_named(state@.nodes, key@) is None,
        },
{
    let ghost q = |n: NodeModel| uuid_text(n.node_id.0) == key@;
    let test = |n: &NodeRecord| -> (b: bool)
        ensures
            b == (uuid_text(n@.node_id.0) == key@),
        {
            let text = id_text(n.node_id.0);
            same_text(text.as_str(), key)
        };
    let found = first_where(&state.nodes, test, Ghost(|n: NodeRecord| q(n@)));
    proof {
        lemma_first_match_view(state.nodes@, q);
    }
    match found {
        Some(id) => match state.node(id) {
            Some(node) => Some(node.clone()),
            None => None,
        },
        None => None,
    }
}

/// What is to be done for a request.
#[derive(Debug)]
pub enum ApiStep {
    /// Answer that the server is up.
    Health,
    /// Answer with the kind of the token, what its bearer may do and the name
    /// of the server.
    Token(TokenKind),
    /// Answer with these nodes.
    Nodes(Vec<NodeRecord>),
    /// Answer with this node.
    Node(NodeRecord),
    /// Answer with the stored metrics of this node.
    Metrics(NodeId),
    /// Answer with these services.
    Services(Vec<ServiceView>),
    /// Answer with this service.
    Service(ServiceView),
    /// Answer with the stored events, the newest first.
    Events,
    /// Read the body and go on with `mutate_token`.
    ReadTokenMutation(TokenMutation),
    /// Read the body and go on with `create_service`.
    ReadService,
    /// Stop listening on the port of the service, delete it from the store and
    /// answer that it is deleted.
    ServiceDeleted(ServiceId),
    /// Answer with the refusal.
    Refused(ApiFault),
}

/// `ApiStep` in mathematical terms.
pub enum ApiStepModel {
    Health,
    Token(TokenKind),
    Nodes(Seq<NodeModel>),
    Node(NodeModel),
    Metrics(NodeId),
    Services(Seq<ServiceViewModel>),
    Service(ServiceViewModel),
    Events,
    ReadTokenMutation(TokenMutation),
    ReadService,
    ServiceDeleted(ServiceId),
    Refused(ApiFault),
}

impl View for ApiStep {
    type V = ApiStepModel;

    open spec fn view(&self) -> ApiStepModel {
        match self {
            ApiStep::Health => ApiStepModel::Health,
            ApiStep::Token(kind) => ApiStepModel::Token(*kind),
            ApiStep::Nodes(nodes) => ApiStepModel::Nodes(
                nodes@.map_values(|n: NodeRecord| n@),
            ),
            ApiStep::Node(node) => ApiStepModel::Node(node@),
            ApiStep::Metrics(node_id) => ApiStepModel::Metrics(*node_id),
            ApiStep::Services(services) => ApiStepModel::Services(
                services@.map_values(|v: ServiceView| v@),
            ),
            ApiStep::Service(service) => ApiStepModel::Service(service@),
            ApiStep::Events => ApiStepModel::Events,
            ApiStep::ReadTokenMutation(mutation) => ApiStepModel::ReadTokenMutation(*mutation),
            ApiStep::ReadService => ApiStepModel::ReadService,
            ApiStep::ServiceDeleted(id) => ApiStepModel::ServiceDeleted(*id),
            ApiStep::Refused(fault) => ApiStepModel::Refused(*fault),
        }
    }
}

/// The relay and what is to be done after a request.
pub struct ApiOutcome {
    pub state: StateModel,
    pub step: ApiStepModel,
}

/// A request about the service with this number, if it names one: only its
/// deletion changes anything.
pub open spec fn service_outcome(
    method: Method,
    id: Option<u128>,
    kind: Option<TokenKind>,
    state: StateModel,
) -> ApiOutcome {
    match id {
        None => ApiOutcome { state, step: ApiStepModel::Refused(ApiFault::InvalidServiceId) },
        Some(id) => if kind is None {
            ApiOutcome { state, step: ApiStepModel::Refused(ApiFault::InvalidBearer) }
        } else if method == Method::Get && state.services.contains_key(id) {
            ApiOutcome {
                state,
                step: ApiStepModel::Service(viewed(state.nodes, state.services[id])),
            }
        } else if method == Method::Delete && state.services.contains_key(id) {
            ApiOutcome {
                state: StateModel { services: state.services.remove(id), ..state },
                step: ApiStepModel::ServiceDeleted(ServiceId(id)),
            }
        } else if method == Method::Get || method == Method::Delete {
            ApiOutcome { state, step: ApiStepModel::Refused(ApiFault::ServiceNotFound) }
        } else {
            ApiOutcome { state, step: ApiStepModel::Refused(ApiFault::RouteNotFound) }
        },
    }
}

/// What is to be done for a request of a bearer of this kind of token.
pub open spec fn api_outcome(
    method: Method,
    path: Seq<char>,
    kind: Option<TokenKind>,
    state: StateModel,
) -> ApiOutcome {
    let refused = ApiStepModel::Refused(ApiFault::InvalidBearer);
    match route_of(method, path) {
        RouteModel::Service(key) => service_outcome(method, parsed_uuid(key), kind, state),
        RouteModel::MutateToken(mutation) => ApiOutcome {
            state,
            step: if kind == Some(TokenKind::Admin) {
                ApiStepModel::ReadTokenMutation(mutation)
            } else {
                ApiStepModel::Refused(ApiFault::AdminRequired)
            },
        },
        RouteModel::Health => ApiOutcome { state, step: ApiStepModel::Health },
        RouteModel::Unknown => ApiOutcome {
            state,
            step: ApiStepModel::Refused(ApiFault::RouteNotFound),
        },
        RouteModel::ValidateToken => ApiOutcome {
            state,
            step: match kind {
                Some(kind) => ApiStepModel::Token(kind),
                None => refused,
            },
        },
        RouteModel::Nodes => ApiOutcome {
            state,
            step: if kind is Some {
                ApiStepModel::Nodes(table::values_in_order(state.nodes))
            } else {
                refused
            },
        },
        RouteModel::Node(key) => ApiOutcome {
            state,
            step: if kind is None {
                refused
            } else {
                match node_named(state.nodes, key) {
                    Some(id) => ApiStepModel::Node(state.nodes[id]),
                    None => ApiStepModel::Refused(ApiFault::NodeNotFound),
                }
            },
        },
        RouteModel::NodeMetrics(key) => ApiOutcome {
            state,
            step: if kind is None {
                refused
            } else {
                match node_named(state.nodes, key) {
                    Some(id) => ApiStepModel::Metrics(state.nodes[id].node_id),
                    None => ApiStepModel::Refused(ApiFault::NodeNotFound),
                }
            },
        },
        RouteModel::CreateService => ApiOutcome {
            state,
            step: if kind is Some {
                ApiStepModel::ReadService
            } else {
                refused
            },
        },
        RouteModel::Services => ApiOutcome {
            state,
            step: if kind is Some {
                ApiStepModel::Services(all_viewed(state))
            } else {
                refused
            },
        },
        RouteModel::Events => ApiOutcome {
            state,
            step: if kind is Some {
                ApiStepModel::Events
            } else {
                refused
            },
        },
    }
}

/// Decides what is to be done for a request about the service with this number;
/// there is none where the path names no identifier.
pub fn handle_service_request(
    method: Method,
    id: Option<u128>,
    kind: Option<TokenKind>,
    state: &mut AppState,
) -> (r: ApiStep)
    ensures
        ({
            let out = service_outcome(method, id, kind, old(state)@);
            final(state)@ == out.state && r@ == out.step
        }),
{
    let id: u128 = match id {
        Some(id) => id,
        None => return ApiStep::Refused(ApiFault::InvalidServiceId),
    };
    if kind.is_none() {
        return ApiStep::Refused(ApiFault::InvalidBearer);
    }
    match method {
        Method::Get => match state.service(id) {
            Some(service) => ApiStep::Service(service_view(state, service)),
            None => ApiStep::Refused(ApiFault::ServiceNotFound),
        },
        Method::Delete => {
            let removed = state.remove_service(id);
            if removed {
                ApiStep::ServiceDeleted(ServiceId(id))
            } else {
                assert(state@ =~= old(state)@);
                ApiStep::Refused(ApiFault::ServiceNotFound)
            }
        },
        _ => ApiStep::Refused(ApiFault::RouteNotFound),
    }
}

/// Decides what is to be done for a request.
pub fn handle_request(
    method: Method,
    path: &str,
    headers: &HeaderMap<HeaderValue>,
    state: &mut AppState,
) -> (r: ApiStep)
    ensures
        ({
            let kind = bearer_kind(header_fields(*headers), old(state)@);
            let out = api_outcome(method, path@, kind, old(state)@);
            final(state)@ == out.state && r@ == out.step
        }),
{
    let kind = authenticate(headers, state);
    let refused = ApiStep::Refused(ApiFault::InvalidBearer);
    match find_route(method, path) {
        Route::Service(key) => handle_service_request(method, parse_id(key.as_str()), kind, state),
        Route::MutateToken(mutation) => match kind {
            Some(TokenKind::Admin) => ApiStep::ReadTokenMutation(mutation),
            _ => ApiStep::Refused(ApiFault::AdminRequired),
        },
        Route::Health => ApiStep::Health,
        Route::Unknown => ApiStep::Refused(ApiFault::RouteNotFound),
        Route::ValidateToken => match kind {
            Some(kind) => ApiStep::Token(kind),
            None => refused,
        },
        Route::Nodes => if kind.is_some() {
            ApiStep::Nodes(node_list(state))
        } else {
            refused
        },
        Route::Node(key) => if kind.is_none() {
            refused
        } else {
            match find_node(state, key.as_str()) {
                Some(node) => ApiStep::Node(node),
                None => ApiStep::Refused(ApiFault::NodeNotFound),
            }
        },
        Route::NodeMetrics(key) => if kind.is_none() {
            refused
        } else {
            match find_node(state, key.as_str()) {
                Some(node) => ApiStep::Metrics(node.node_id),
                None => ApiStep::Refused(ApiFault::NodeNotFound),
            }
        },
        Route::CreateService => if kind.is_some() {
            ApiStep::ReadService
        } else {
            refused
        },
        Route::Services => if kind.is_some() {
            ApiStep::Services(service_list(state))
        } else {
            refused
        },
        Route::Events => if kind.is_some() {
            ApiStep::Events
        } else {
            refused
        },
    }
}

/// A request for a new service.
#[derive(Debug)]
pub struct ServiceCreateRequest {
    pub service_name: String,
    pub node_id: NodeId,
    pub protocol: Protocol,
    pub local_address: String,
    pub public_port: Option<u16>,
    pub metadata: Metadata,
}

/// `ServiceCreateRequest` with its texts as sequences of characters.
#[verifier::ext_equal]
pub struct CreateModel {
    pub service_name: Seq<char>,
    pub node_id: NodeId,
    pub protocol: Protocol,
    pub local_address: Seq<char>,
    pub public_port: Option<u16>,
    pub metadata: Seq<(Seq<char>, Seq<char>)>,
}

impl View for ServiceCreateRequest {
    type V = CreateModel;

    open spec fn view(&self) -> CreateModel {
        CreateModel {
            service_name: self.service_name@,
            node_id: self.node_id,
            protocol: self.protocol,
            local_address: self.local_address@,
            public_port: self.public_port,
            metadata: self.metadata@,
        }
    }
}

/// The service that a request describes, under this identifier.
pub open spec fn defined(request: CreateModel, service_id: ServiceId) -> ServiceModel {
    ServiceModel {
        service_id,
        service_name: request.service_name,
        node_id: request.node_id,
        protocol: request.protocol,
        local_address: request.local_address,
        public_host: None,
        public_port: request.public_port,
        metadata: request.metadata,
    }
}

impl ServiceCreateRequest {
    /// The service that the request describes, under a new identifier.
    pub fn into_definition(self) -> (r: ServiceDefinition)
        ensures
            r@ == defined(self@, r.service_id),
            is_version_7(r.service_id.0),
    {
        ServiceDefinition {
            service_id: ServiceId::new(),
            service_name: self.service_name,
            node_id: self.node_id,
            protocol: self.protocol,
            local_address: self.local_address,
            public_host: None,
            public_port: self.public_port,
            metadata: self.metadata,
        }
    }
}

/// Checks the body of a request for a service by its length; there is none
/// where the body could not be read.
pub fn check_service_body(length: Option<usize>) -> (r: Result<(), ApiFault>)
    ensures
        r == match length {
            None => Err(ApiFault::InvalidServiceRequest),
            Some(length) => if length > MAX_API_BODY_BYTES {
                Err(ApiFault::ServiceRequestTooLarge)
            } else {
                Ok(())
            },
        },
{
    match length {
        None => Err(ApiFault::InvalidServiceRequest),
        Some(length) => if length > MAX_API_BODY_BYTES {
            Err(ApiFault::ServiceRequestTooLarge)
        } else {
            Ok(())
        },
    }
}

/// Checks the body of a request about a token by its length; there is none
/// where the body could not be read.
pub fn check_token_body(length: Option<usize>) -> (r: Result<(), ApiFault>)
    ensures
        r == match length {
            None => Err(ApiFault::InvalidTokenMutation),
            Some(length) => if length > MAX_API_BODY_BYTES {
                Err(ApiFault::InvalidTokenMutation)
            } else {
                Ok(())
            },
        },
{
    match length {
        None => Err(ApiFault::InvalidTokenMutation),
        Some(length) => if length > MAX_API_BODY_BYTES {
            Err(ApiFault::InvalidTokenMutation)
        } else {
            Ok(())
        },
    }
}

/// What a request for this service leads to: it is entered in the directory if
/// its node is known and online and the directory takes it.
pub open spec fn creation(state: StateModel, service: ServiceModel) -> Result<
    ServiceModel,
    ApiFault,
> {
    let node = service.node_id.0;
    if !state.nodes.contains_key(node) {
        Err(ApiFault::NodeNotFound)
    } else if state.nodes[node].status != NodeStatus::Online {
        Err(ApiFault::NodeOffline)
    } else {
        match registration(state, service, service.node_id) {
            Ok(published) => Ok(published),
            Err(_) => Err(ApiFault::ServiceRejected),
        }
    }
}

/// Enters a service in the directory. What is handed back is to be stored and
/// listened for; a refusal changes nothing.
pub fn create_defined(service: ServiceDefinition, state: &mut AppState) -> (r: Result<
    ServiceDefinition,
    ApiFault,
>)
    ensures
        match r {
            Ok(published) => {
                &&& creation(old(state)@, service@) == Ok::<_, ApiFault>(published@)
                &&& final(state)@ == with_service(old(state)@, published@)
            },
            Err(fault) => {
                &&& creation(old(state)@, service@) == Err::<ServiceModel, _>(fault)
                &&& final(state)@ == old(state)@
            },
        },
{
    let status = match state.node(service.node_id.0) {
        Some(node) => node.status,
        None => return Err(ApiFault::NodeNotFound),
    };
    if status != NodeStatus::Online {
        return Err(ApiFault::NodeOffline);
    }
    let node_id = service.node_id;
    match register_service(state, service, node_id) {
        Ok(published) => Ok(published),
        Err(_) => Err(ApiFault::ServiceRejected),
    }
}

/// Carries out a request for a service under a new identifier; there is none
/// where the body was no such request.
pub fn create_service(request: Option<ServiceCreateRequest>, state: &mut AppState) -> (r: Result<
    ServiceDefinition,
    ApiFault,
>)
    ensures
        request is None ==> r == Err::<ServiceDefinition, _>(ApiFault::InvalidServiceRequest)
            && final(state)@ == old(state)@,
        request matches Some(request) ==> exists|id: ServiceId|
            {
                let service = #[trigger] defined(request@, id);
                &&& is_version_7(id.0)
                &&& match r {
                    Ok(published) => {
                        &&& creation(old(state)@, service) == Ok::<_, ApiFault>(published@)
                        &&& final(state)@ == with_service(old(state)@, published@)
                    },
                    Err(fault) => {
                        &&& creation(old(state)@, service) == Err::<ServiceModel, _>(fault)
                        &&& final(state)@ == old(state)@
                    },
                }
            },
{
    match request {
        Some(request) => {
            let service = request.into_definition();
            assert(service@ == defined(request@, service.service_id));
            create_defined(service, state)
        },
        None => Err(ApiFault::InvalidServiceRequest),
    }
}

/// A change of a token that is to be made: store `tokens`, carry out
/// `finish_token_change` with whether that worked, and answer with the kind and,
/// after a rotation, the new token.
#[derive(Debug)]
pub struct TokenChange {
    pub kind: TokenKind,
    pub hash: Option<[u8; 32]>,
    pub token: Option<String>,
    pub tokens: TokenState,
    pub failure: ApiFault,
}

/// Prepares the change of a token; there is no kind where the body was no such
/// request.
pub fn mutate_token(mutation: TokenMutation, kind: Option<TokenKind>, state: &AppState) -> (r:
    Result<TokenChange, ApiFault>)
    ensures
        match kind {
            None => r == Err::<TokenChange, _>(ApiFault::InvalidTokenMutation),
            Some(kind) => {
                &&& r is Ok
                &&& r->Ok_0.kind == kind
                &&& match mutation {
                    TokenMutation::Rotate => {
                        &&& r->Ok_0.failure == ApiFault::RotationFailed
                        &&& r->Ok_0.token is Some
                        &&& exists|raw: [u8; 32]|
                            r->Ok_0.token->0@ == #[trigger] token_text(kind, raw@)
                        &&& r->Ok_0.hash is Some
                        &&& r->Ok_0.hash->0@ == token_hash(r->Ok_0.token->0@)
                        &&& r->Ok_0.tokens@ == state@.tokens.replaced(
                            kind,
                            Some(r->Ok_0.hash->0@),
                        )
                    },
                    TokenMutation::Revoke => {
                        &&& r->Ok_0.failure == ApiFault::RevocationFailed
                        &&& r->Ok_0.token is None
                        &&& r->Ok_0.hash is None
                        &&& r->Ok_0.tokens@ == state@.tokens.replaced(kind, None)
                    },
                }
            },
        },
{
    let kind = match kind {
        Some(kind) => kind,
        None => return Err(ApiFault::InvalidTokenMutation),
    };
    let mut tokens = state.tokens;
    match mutation {
        TokenMutation::Rotate => {
            let (token, hash) = generate_token(kind);
            tokens.set(kind, Some(hash));
            Ok(
                TokenChange {
                    kind,
                    hash: Some(hash),
                    token: Some(token),
                    tokens,
                    failure: ApiFault::RotationFailed,
                },
            )
        },
        TokenMutation::Revoke => {
            tokens.set(kind, None);
            Ok(
                TokenChange {
                    kind,
                    hash: None,
                    token: None,
                    tokens,
                    failure: ApiFault::RevocationFailed,
                },
            )
        },
    }
}

/// Carries out a change of a token once it is known whether the tokens were
/// stored. Where they were not, nothing changes and the request is refused;
/// where they were, every session that a token of this kind opened is cut off.
pub fn finish_token_change(change: &TokenChange, stored: bool, state: &mut AppState) -> (r: Result<
    Vec<Disconnected>,
    ApiFault,
>)
    ensures
        !stored ==> r == Err::<Vec<Disconnected>, _>(change.failure) && final(state)@ == old(state)@,
        stored ==> {
            &&& r is Ok
            &&& final(state)@ == after_replacement(old(state)@, change.kind, key_bytes(change.hash))
            &&& tells_of_admitted(r->Ok_0@, old(state)@, change.kind)
        },
{
    if stored {
        Ok(replace_token(state, change.kind, change.hash))
    } else {
        Err(change.failure)
    }
}

/// Ends the creation of a service that is stored: where the port of a TCP
/// service is not listened on, the service is taken out of the directory again
/// and the request is refused.
pub fn finish_creation(service: ServiceDefinition, listening: bool, state: &mut AppState) -> (r:
    Result<ServiceDefinition, ApiFault>)
    ensures
        final(state)@ == after_listening(old(state)@, service@, listening),
        match r {
            Ok(published) => is_reachable(service@, listening) && published@ == service@,
            Err(fault) => !is_reachable(service@, listening) && fault == ApiFault::ServiceRejected,
        },
{
    match settle_publication(service, listening, state) {
        Ok(published) => Ok(published),
        Err(_) => Err(ApiFault::ServiceRejected),
    }
}

/// Without a token in force a request learns whether the server is up and
/// whether an address exists, and nothing else, and it changes nothing.
pub proof fn law_api_needs_token(method: Method, path: Seq<char>, state: StateModel)
    ensures
        api_outcome(method, path, None, state).state == state,
        match api_outcome(method, path, None, state).step {
            ApiStepModel::Health => route_of(method, path) == RouteModel::Health,
            ApiStepModel::Refused(fault) => {
                ||| fault == ApiFault::InvalidBearer
                ||| fault == ApiFault::AdminRequired
                ||| fault == ApiFault::InvalidServiceId
                ||| fault == ApiFault::RouteNotFound
            },
            _ => false,
        },
{
}

/// Only an admin token changes tokens; everything else a user token may do too,
/// with the same answer, but for the answer that names the token's kind.
pub proof fn law_user_may_all_but_tokens(method: Method, path: Seq<char>, state: StateModel)
    ensures
        ({
            let admin = api_outcome(method, path, Some(TokenKind::Admin), state);
            let user = api_outcome(method, path, Some(TokenKind::User), state);
            match route_of(method, path) {
                RouteModel::MutateToken(mutation) => {
                    &&& admin.step == ApiStepModel::ReadTokenMutation(mutation)
                    &&& user.step == ApiStepModel::Refused(ApiFault::AdminRequired)
                    &&& user.state == state
                },
                RouteModel::ValidateToken => {
                    &&& admin.step == ApiStepModel::Token(TokenKind::Admin)
                    &&& user.step == ApiStepModel::Token(TokenKind::User)
                },
                _ => user == admin,
            }
        }),
{
}

/// A service that was deleted is not found any more, and every other service
/// is.
pub proof fn law_deleted_service_is_gone(id: u128, kind: TokenKind, state: StateModel, k: u128)
    requires
        state.services.contains_key(id),
    ensures
        ({
            let deleted = service_outcome(Method::Delete, Some(id), Some(kind), state);
            &&& deleted.step == ApiStepModel::ServiceDeleted(ServiceId(id))
            &&& service_outcome(Method::Get, Some(id), Some(kind), deleted.state).step
                == ApiStepModel::Refused(ApiFault::ServiceNotFound)
            &&& k != id ==> deleted.state.services.contains_key(k) == state.services.contains_key(k)
            &&& k != id && state.services.contains_key(k) ==> deleted.state.services[k]
                == state.services[k]
        }),
{
}

/// The list of services is complete: every service of the directory is in it,
/// with the state of its node.
pub proof fn law_directory_is_complete(state: StateModel, k: u128)
    requires
        state.services.dom().finite(),
        state.services.contains_key(k),
    ensures
        all_viewed(state).contains(viewed(state.nodes, state.services[k])),
{
    table::lemma_keys_can_be_listed(state.services);
    let keys = table::keys_in_order(state.services);
    assert(keys.contains(k));
    let i = choose|i: int| 0 <= i < keys.len() && keys[i] == k;
    assert(all_viewed(state)[i] == viewed(state.nodes, state.services[k]));
}

/// A service that was created is read back under its identifier as it was
/// published, and it is online.
pub proof fn law_created_service_is_read(
    state: StateModel,
    service: ServiceModel,
    kind: TokenKind,
)
    requires
        creation(state, service) is Ok,
    ensures
        ({
            let published = creation(state, service)->Ok_0;
            let after = with_service(state, published);
            &&& service_outcome(
                Method::Get,
                Some(published.service_id.0),
                Some(kind),
                after,
            ).step == ApiStepModel::Service(viewed(state.nodes, published))
            &&& viewed(state.nodes, published).status == ServiceStatus::Online
        }),
{
}

/// A service is shown as online exactly if the node that publishes it is known
/// and online, and with the transport, the last heartbeat and the round trip
/// that are recorded of that node; the service itself is shown as it is.
pub proof fn law_service_shows_its_node(nodes: Map<u128, NodeModel>, service: ServiceModel)
    ensures
        ({
            let shown = viewed(nodes, service);
            let id = service.node_id.0;
            &&& shown.service == service
            &&& shown.status == ServiceStatus::Online <==> nodes.contains_key(id)
                && nodes[id].status == NodeStatus::Online
            &&& shown.status == ServiceStatus::Offline <==> !(nodes.contains_key(id)
                && nodes[id].status == NodeStatus::Online)
            &&& nodes.contains_key(id) ==> {
                &&& shown.transport == Some(nodes[id].transport)
                &&& shown.last_heartbeat_at_unix_ms == nodes[id].last_heartbeat_at_unix_ms
                &&& shown.rtt_ms == nodes[id].rtt_ms
            }
            &&& !nodes.contains_key(id) ==> {
                &&& shown.transport is None
                &&& shown.last_heartbeat_at_unix_ms is None
                &&& shown.rtt_ms is None
            }
        }),
{
}

/// After the session of a node has ended, or the token was replaced or revoked
/// with which it was opened, each of its services is shown as offline; the
/// services of nodes that are not concerned are shown as before.
pub proof fn law_services_go_offline_with_their_node(
    state: StateModel,
    service: ServiceModel,
    session_id: TunnelId,
    node_id: NodeId,
    kind: TokenKind,
    hash: Option<Seq<u8>>,
)
    ensures
        ({
            let id = service.node_id.0;
            let ended = after_session(state, node_id, session_id);
            let replaced = after_replacement(state, kind, hash);
            &&& state.sessions.contains_key(id) && state.sessions[id].id == session_id && node_id
                == service.node_id ==> viewed(ended.nodes, service).status
                == ServiceStatus::Offline
            &&& node_id != service.node_id ==> viewed(ended.nodes, service) == viewed(
                state.nodes,
                service,
            )
            &&& state.sessions.contains_key(id) && state.sessions[id].token_kind == kind ==> viewed(
                replaced.nodes,
                service,
            ).status == ServiceStatus::Offline
            &&& !(state.sessions.contains_key(id) && state.sessions[id].token_kind == kind)
                ==> viewed(replaced.nodes, service) == viewed(state.nodes, service)
        }),
{
    law_session_end_takes_its_node_offline(state, node_id, session_id, service.node_id.0);
    law_replacement_is_exact(state, kind, hash, service.node_id.0);
}

/// The list of services has one entry for each service, in the order of their
/// numbers, each online exactly if its node is.
pub proof fn law_service_list_is_exact(state: StateModel, i: int, j: int)
    requires
        state.services.dom().finite(),
        0 <= i < all_viewed(state).len(),
        0 <= j < all_viewed(state).len(),
    ensures
        exists|k: u128, l: u128| #![trigger state.services.contains_key(k), state.services.contains_key(l)]
            {
                &&& state.services.contains_key(k)
                &&& state.services.contains_key(l)
                &&& all_viewed(state)[i].service == state.services[k]
                &&& all_viewed(state)[j].service == state.services[l]
                &&& i < j <==> k < l
            },
        ({
            let node = all_viewed(state)[i].service.node_id.0;
            all_viewed(state)[i].status == ServiceStatus::Online <==> state.nodes.contains_key(node)
                && state.nodes[node].status == NodeStatus::Online
        }),
{
    table::lemma_keys_can_be_listed(state.services);
    let keys = table::keys_in_order(state.services);
    let (k, l) = (keys[i], keys[j]);
    assert(keys.contains(k) && keys.contains(l));
    assert(state.services.contains_key(k) && state.services.contains_key(l));
    assert(all_viewed(state)[i] == viewed(state.nodes, state.services[k]));
    assert(all_viewed(state)[j] == viewed(state.nodes, state.services[l]));
    law_service_shows_its_node(state.nodes, state.services[k]);
}

proof fn lemma_service_path(id: u128)
    ensures
        ({
            let path = "/v1/services/"@ + uuid_text(id);
            &&& forall|method: Method| #[trigger]
                route_of(method, path) == RouteModel::Service(uuid_text(id))
            &&& parsed_uuid(uuid_text(id)) == Some(id)
        }),
{
    reveal_strlit("/v1/admin/tokens/rotate");
    reveal_strlit("/v1/admin/tokens/revoke");
    reveal_strlit("/v1/nodes");
    reveal_strlit("/v1/nodes/");
    reveal_strlit("/v1/services");
    reveal_strlit("/v1/services/");
    law_id_reads_back(id);
    let path = "/v1/services/"@ + uuid_text(id);
    lemma_uuid_text_len(id);
    assert(path[4] == 's');
    assert(path.take(13) =~= "/v1/services/"@);
    assert(path.skip(13) =~= uuid_text(id));
    assert(path.take(10)[4] == 's');
    assert(path != "/v1/nodes"@);
    assert(path.len() == 49);
    assert("/v1/admin/tokens/rotate"@[4] == 'a');
    assert("/v1/admin/tokens/revoke"@[4] == 'a');
}

/// A bearer of any token reads a service at the path of its identifier, with
/// the state of its node; where there is none it is not found. Reading changes
/// nothing, and without a token nothing is read.
pub proof fn law_service_is_read_at_its_path(id: u128, kind: TokenKind, state: StateModel)
    ensures
        ({
            let path = "/v1/services/"@ + uuid_text(id);
            let out = api_outcome(Method::Get, path, Some(kind), state);
            &&& out.state == state
            &&& state.services.contains_key(id) ==> {
                &&& out.step is Service
                &&& out.step->Service_0.service == state.services[id]
                &&& out.step->Service_0.status == ServiceStatus::Online <==> {
                    let node = state.services[id].node_id.0;
                    state.nodes.contains_key(node) && state.nodes[node].status
                        == NodeStatus::Online
                }
            }
            &&& !state.services.contains_key(id) ==> out.step == ApiStepModel::Refused(
                ApiFault::ServiceNotFound,
            )
            &&& api_outcome(Method::Get, path, None, state).step == ApiStepModel::Refused(
                ApiFault::InvalidBearer,
            )
        }),
{
    lemma_service_path(id);
    let path = "/v1/services/"@ + uuid_text(id);
    assert(route_of(Method::Get, path) == RouteModel::Service(uuid_text(id)));
}

/// A bearer of any token deletes a service at the path of its identifier, and
/// that one alone; without a token nothing is deleted, and no other method than
/// reading and deleting is answered there.
pub proof fn law_service_is_deleted_at_its_path(
    id: u128,
    kind: TokenKind,
    state: StateModel,
    k: u128,
)
    ensures
        ({
            let path = "/v1/services/"@ + uuid_text(id);
            let out = api_outcome(Method::Delete, path, Some(kind), state);
            &&& state.services.contains_key(id) ==> out.step == ApiStepModel::ServiceDeleted(
                ServiceId(id),
            )
            &&& !state.services.contains_key(id) ==> out.step == ApiStepModel::Refused(
                ApiFault::ServiceNotFound,
            )
            &&& out.state.services.contains_key(k) <==> state.services.contains_key(k) && k != id
            &&& out.state.services.contains_key(k) ==> out.state.services[k] == state.services[k]
            &&& out.state == StateModel { services: out.state.services, ..state }
            &&& api_outcome(Method::Delete, path, None, state).state == state
            &&& api_outcome(Method::Delete, path, None, state).step == ApiStepModel::Refused(
                ApiFault::InvalidBearer,
            )
            &&& api_outcome(Method::Post, path, Some(kind), state).state == state
            &&& api_outcome(Method::Post, path, Some(kind), state).step == ApiStepModel::Refused(
                ApiFault::RouteNotFound,
            )
            &&& api_outcome(Method::Other, path, Some(kind), state).step == ApiStepModel::Refused(
                ApiFault::RouteNotFound,
            )
        }),
{
    lemma_service_path(id);
    let path = "/v1/services/"@ + uuid_text(id);
    assert(route_of(Method::Delete, path) == RouteModel::Service(uuid_text(id)));
    assert(route_of(Method::Post, path) == RouteModel::Service(uuid_text(id)));
    assert(route_of(Method::Other, path) == RouteModel::Service(uuid_text(id)));
    if !state.services.contains_key(id) {
        assert(state.services.remove(id) =~= state.services);
    }
}

/// Only a deletion changes anything at once; every other request leaves the
/// relay as it is.
pub proof fn law_requests_but_deletions_change_nothing(
    method: Method,
    path: Seq<char>,
    kind: Option<TokenKind>,
    state: StateModel,
)
    requires
        method != Method::Delete || kind is None,
    ensures
        api_outcome(method, path, kind, state).state == state,
{
}

/// What the fixed addresses of the API are for.
pub proof fn law_addresses_of_the_api(kind: TokenKind, state: StateModel)
    ensures
        api_outcome(Method::Get, "/v1/services"@, Some(kind), state).step
            == ApiStepModel::Services(all_viewed(state)),
        api_outcome(Method::Post, "/v1/services"@, Some(kind), state).step
            == ApiStepModel::ReadService,
        api_outcome(Method::Get, "/v1/nodes"@, Some(kind), state).step == ApiStepModel::Nodes(
            table::values_in_order(state.nodes),
        ),
        api_outcome(Method::Get, "/v1/events"@, Some(kind), state).step == ApiStepModel::Events,
        api_outcome(Method::Post, "/v1/auth/validate"@, Some(kind), state).step
            == ApiStepModel::Token(kind),
        api_outcome(Method::Post, "/v1/admin/tokens/rotate"@, Some(TokenKind::Admin), state).step
            == ApiStepModel::ReadTokenMutation(TokenMutation::Rotate),
        api_outcome(Method::Post, "/v1/admin/tokens/revoke"@, Some(TokenKind::Admin), state).step
            == ApiStepModel::ReadTokenMutation(TokenMutation::Revoke),
        api_outcome(Method::Post, "/v1/admin/tokens/rotate"@, Some(TokenKind::User), state).step
            == ApiStepModel::Refused(ApiFault::AdminRequired),
        api_outcome(Method::Post, "/v1/admin/tokens/revoke"@, Some(TokenKind::User), state).step
            == ApiStepModel::Refused(ApiFault::AdminRequired),
        api_outcome(Method::Get, "/healthz"@, None, state).step == ApiStepModel::Health,
        api_outcome(Method::Get, "/readyz"@, None, state).step == ApiStepModel::Health,
{
    reveal_strlit("/v1/services");
    reveal_strlit("/v1/services/");
    reveal_strlit("/v1/nodes");
    reveal_strlit("/v1/nodes/");
    reveal_strlit("/v1/events");
    reveal_strlit("/v1/auth/validate");
    reveal_strlit("/v1/admin/tokens/rotate");
    reveal_strlit("/v1/admin/tokens/revoke");
    reveal_strlit("/healthz");
    reveal_strlit("/readyz");
    let services = "/v1/services"@;
    assert(services[4] == 's' && services.len() == 12);
    assert(services.take(10)[4] == 's');
    let nodes = "/v1/nodes"@;
    assert(nodes[4] == 'n' && nodes.len() == 9);
    let events = "/v1/events"@;
    assert(events[4] == 'e' && events.len() == 10);
    assert(events.take(10)[4] == 'e');
    let validate = "/v1/auth/validate"@;
    assert(validate[5] == 'u' && validate.len() == 17);
    assert(validate.take(13)[4] == 'a');
    let rotate = "/v1/admin/tokens/rotate"@;
    let revoke = "/v1/admin/tokens/revoke"@;
    assert(rotate[18] == 'o' && revoke[18] == 'e');
    let (health, ready) = ("/healthz"@, "/readyz"@);
    assert(health.len() == 8 && ready.len() == 7);
}

/// An address that the API does not have is not found, whatever the token.
pub proof fn law_other_addresses_are_not_found(
    method: Method,
    path: Seq<char>,
    kind: Option<TokenKind>,
    state: StateModel,
)
    requires
        path != "/v1/admin/tokens/rotate"@,
        path != "/v1/admin/tokens/revoke"@,
        path != "/v1/nodes"@,
        path != "/v1/services"@,
        path != "/healthz"@,
        path != "/readyz"@,
        path != "/v1/auth/validate"@,
        path != "/v1/events"@,
        path.len() < "/v1/nodes/"@.len() || path.take("/v1/nodes/"@.len() as int) != "/v1/nodes/"@,
        path.len() < "/v1/services/"@.len() || path.take("/v1/services/"@.len() as int)
            != "/v1/services/"@,
    ensures
        api_outcome(method, path, kind, state).step == ApiStepModel::Refused(
            ApiFault::RouteNotFound,
        ),
{
}

/// A bearer of any token reads a node, or asks for its metrics, at the path of
/// its identifier; a node that is not known is not found.
pub proof fn law_node_is_read_at_its_path(id: u128, kind: TokenKind, state: StateModel)
    requires
        forall|k: u128| #[trigger]
            state.nodes.contains_key(k) ==> state.nodes[k].node_id == NodeId(k),
    ensures
        ({
            let path = "/v1/nodes/"@ + uuid_text(id);
            let node = api_outcome(Method::Get, path, Some(kind), state).step;
            let metrics = api_outcome(Method::Get, path + "/metrics"@, Some(kind), state).step;
            &&& state.nodes.contains_key(id) ==> node == ApiStepModel::Node(state.nodes[id])
                && metrics == ApiStepModel::Metrics(NodeId(id))
            &&& !state.nodes.contains_key(id) ==> node == ApiStepModel::Refused(
                ApiFault::NodeNotFound,
            ) && metrics == ApiStepModel::Refused(ApiFault::NodeNotFound)
        }),
{
    reveal_strlit("/v1/nodes");
    reveal_strlit("/v1/nodes/");
    reveal_strlit("/metrics");
    let text = uuid_text(id);
    lemma_uuid_text_len(id);
    lemma_uuid_text_has_no_slash(id);
    let path = "/v1/nodes/"@ + text;
    let longer = path + "/metrics"@;
    assert(path.take(10) =~= "/v1/nodes/"@);
    assert(longer.take(10) =~= "/v1/nodes/"@);
    assert(path.skip(10) =~= text);
    let key = longer.skip(10);
    assert(key =~= text + "/metrics"@);
    assert(key.skip(key.len() - 8) =~= "/metrics"@);
    assert(key.take(key.len() - 8) =~= text);
    assert(text.skip(text.len() - 8)[0] == text[28]);
    assert("/metrics"@[0] == '/');
    assert(route_of(Method::Get, path) == RouteModel::Node(text));
    assert(route_of(Method::Get, longer) == RouteModel::NodeMetrics(text));
    let q = |n: NodeModel| uuid_text(n.node_id.0) == text;
    if state.nodes.contains_key(id) {
        assert forall|j: u128| #[trigger] state.nodes.contains_key(j) && j < id implies !q(
            state.nodes[j],
        ) by {
            if q(state.nodes[j]) {
                law_id_texts_differ(j, id);
            }
        }
        assert(table::is_first(state.nodes, q, id));
        table::lemma_first_match(state.nodes, q, id);
    } else {
        assert(!table::any_match(state.nodes, q)) by {
            if table::any_match(state.nodes, q) {
                let k = choose|k: u128| #[trigger] state.nodes.contains_key(k) && q(state.nodes[k]);
                law_id_texts_differ(k, id);
            }
        }
        table::lemma_no_match(state.nodes, q);
    }
}

/// A request is made with the token that stands behind `Bearer ` in its
/// `Authorization` field, and with none where the field is missing or says
/// anything else.
pub proof fn law_bearer_is_authenticated(
    fields: Map<Seq<char>, Seq<Seq<u8>>>,
    state: StateModel,
    token: Seq<char>,
)
    ensures
        field_text(fields, "authorization"@) == Some("Bearer "@ + token) ==> bearer_kind(
            fields,
            state,
        ) == token_kind_of(state, token),
        !fields.contains_key("authorization"@) ==> bearer_kind(fields, state) is None,
        bearer_kind(fields, state) matches Some(kind) ==> {
            let raw = field_text(fields, "authorization"@)->0;
            &&& field_text(fields, "authorization"@) is Some
            &&& raw.len() >= 7
            &&& raw.take(7) == "Bearer "@
            &&& token_kind_of(state, raw.skip(7)) == Some(kind)
        },
{
    reveal_strlit("Bearer ");
    let raw = "Bearer "@ + token;
    assert(raw.take(7) =~= "Bearer "@);
    assert(raw.skip(7) =~= token);
}

/// An admin may do what a user may, and change tokens besides.
pub proof fn law_admin_may_more_than_a_user(what: Seq<char>)
    ensures
        capability_texts(TokenKind::User).contains(what) ==> capability_texts(
            TokenKind::Admin,
        ).contains(what),
        capability_texts(TokenKind::Admin).contains(what) && what != "tokens:write"@
            ==> capability_texts(TokenKind::User).contains(what),
        capability_texts(TokenKind::Admin).contains("tokens:write"@),
        !capability_texts(TokenKind::User).contains("tokens:write"@),
        capability_texts(TokenKind::User).contains("services:read"@),
        capability_texts(TokenKind::User).contains("services:write"@),
        capability_texts(TokenKind::User).contains("nodes:read"@),
{
    reveal_strlit("tokens:write");
    reveal_strlit("services:read");
    reveal_strlit("services:write");
    reveal_strlit("nodes:read");
    let user = capability_texts(TokenKind::User);
    let admin = capability_texts(TokenKind::Admin);
    assert(user[0] == "services:read"@ && user[1] == "services:write"@ && user[2]
        == "nodes:read"@);
    assert(admin[0] == user[0] && admin[1] == user[1] && admin[2] == user[2] && admin[3]
        == "tokens:write"@);
    assert("tokens:write"@[0] == 't' && user[0][0] == 's' && user[1][0] == 's' && user[2][0]
        == 'n');
    if user.contains(what) {
        let i = choose|i: int| 0 <= i < user.len() && user[i] == what;
        assert(admin[i] == what);
    }
    if admin.contains(what) {
        let i = choose|i: int| 0 <= i < admin.len() && admin[i] == what;
        if i < 3 {
            assert(user[i] == what);
        }
    }
}

/// A service that a request describes has all that the request says, and no
/// host before it is published.
pub proof fn law_request_describes_the_service(request: CreateModel, id: ServiceId)
    ensures
        ({
            let service = defined(request, id);
            &&& service.service_id == id
            &&& service.service_name == request.service_name
            &&& service.node_id == request.node_id
            &&& service.protocol == request.protocol
            &&& service.local_address == request.local_address
            &&& service.public_port == request.public_port
            &&& service.metadata == request.metadata
            &&& service.public_host is None
        }),
{
}

/// A service is created for a node that is known and online, and then exactly
/// if the directory takes it; it is published as it was described. In any other
/// case the request is refused for its reason.
pub proof fn law_service_is_created_for_an_online_node(state: StateModel, service: ServiceModel)
    ensures
        ({
            let id = service.node_id.0;
            let online = state.nodes.contains_key(id) && state.nodes[id].status
                == NodeStatus::Online;
            &&& creation(state, service) is Ok <==> online && registration(
                state,
                service,
                service.node_id,
            ) is Ok
            &&& !state.nodes.contains_key(id) ==> creation(state, service) == Err::<
                ServiceModel,
                _,
            >(ApiFault::NodeNotFound)
            &&& state.nodes.contains_key(id) && !online ==> creation(state, service) == Err::<
                ServiceModel,
                _,
            >(ApiFault::NodeOffline)
            &&& online && registration(state, service, service.node_id) is Err ==> creation(
                state,
                service,
            ) == Err::<ServiceModel, _>(ApiFault::ServiceRejected)
            &&& creation(state, service) matches Ok(published) ==> {
                &&& published.service_name == service.service_name
                &&& published.node_id == service.node_id
                &&& published.protocol == service.protocol
                &&& published.local_address == service.local_address
                &&& published.metadata == service.metadata
                &&& service.protocol == Protocol::Tcp ==> published.public_host == Some(
                    state.public_host,
                ) && published.public_port is Some
                &&& service.protocol != Protocol::Tcp ==> state.http_domain is Some
                    && published.public_host == Some(
                    service.service_name + "."@ + state.http_domain->0,
                )
            }
        }),
{
    if registration(state, service, service.node_id) is Ok {
        law_published_as_asked(state, service, service.node_id);
        if service.protocol == Protocol::Tcp {
            law_tcp_service_is_at_the_relay(state, service, service.node_id, 0);
        } else {
            law_http_service_is_below_the_domain(state, service, service.node_id);
        }
    }
}

/// A path below that of the nodes finds the node whose identifier has exactly
/// the text behind it, and no other.
pub proof fn law_only_named_nodes_are_found(key: Seq<char>, kind: TokenKind, state: StateModel)
    requires
        key.len() < 8 || key.skip(key.len() - 8) != "/metrics"@,
    ensures
        match api_outcome(Method::Get, "/v1/nodes/"@ + key, Some(kind), state).step {
            ApiStepModel::Node(node) => uuid_text(node.node_id.0) == key && exists|k: u128| #[trigger]
                state.nodes.contains_key(k) && state.nodes[k] == node,
            ApiStepModel::Refused(fault) => fault == ApiFault::NodeNotFound && forall|k: u128| #[trigger]
                state.nodes.contains_key(k) ==> uuid_text(state.nodes[k].node_id.0) != key,
            _ => false,
        },
{
    reveal_strlit("/v1/nodes");
    reveal_strlit("/v1/nodes/");
    reveal_strlit("/metrics");
    let path = "/v1/nodes/"@ + key;
    assert(path.take(10) =~= "/v1/nodes/"@);
    assert(path.skip(10) =~= key);
    assert(path.len() >= 10);
    assert(route_of(Method::Get, path) == RouteModel::Node(key));
    let q = |n: NodeModel| uuid_text(n.node_id.0) == key;
    match node_named(state.nodes, key) {
        Some(id) => {
            assert(table::is_first(state.nodes, q, id));
            assert(state.nodes.contains_key(id));
        },
        None => {
            assert forall|k: u128| #[trigger] state.nodes.contains_key(k) implies uuid_text(
                state.nodes[k].node_id.0,
            ) != key by {
                if q(state.nodes[k]) {
                    table::lemma_first_match_exists(state.nodes, q, k);
                }
            }
        },
    }
}

/// A path below that of the services that spells no identifier is refused as
/// such, before the token is looked at.
pub proof fn law_service_paths_spell_identifiers(
    method: Method,
    key: Seq<char>,
    kind: Option<TokenKind>,
    state: StateModel,
)
    requires
        forall|id: u128| !spells(key, id),
    ensures
        api_outcome(method, "/v1/services/"@ + key, kind, state).step == ApiStepModel::Refused(
            ApiFault::InvalidServiceId,
        ),
        api_outcome(method, "/v1/services/"@ + key, kind, state).state == state,
{
    reveal_strlit("/v1/admin/tokens/rotate");
    reveal_strlit("/v1/admin/tokens/revoke");
    reveal_strlit("/v1/nodes");
    reveal_strlit("/v1/nodes/");
    reveal_strlit("/v1/services");
    reveal_strlit("/v1/services/");
    let path = "/v1/services/"@ + key;
    assert(path[4] == 's');
    assert(path.len() >= 13);
    assert(path.take(13) =~= "/v1/services/"@);
    assert(path.skip(13) =~= key);
    assert(path.take(10)[4] == 's');
    assert("/v1/admin/tokens/rotate"@[4] == 'a');
    assert("/v1/admin/tokens/revoke"@[4] == 'a');
    assert(route_of(method, path) == RouteModel::Service(key));
}

/// The models of a request and of an entry of the list show all of their
/// fields.
pub proof fn law_requests_and_entries_are_shown(request: ServiceCreateRequest, entry: ServiceView)
    ensures
        request@.service_name == request.service_name@,
        request@.node_id == request.node_id,
        request@.protocol == request.protocol,
        request@.local_address == request.local_address@,
        request@.public_port == request.public_port,
        request@.metadata == request.metadata@,
        entry@.service == entry.service@,
        entry@.status == entry.status,
        entry@.transport == entry.transport,
        entry@.last_heartbeat_at_unix_ms == entry.last_heartbeat_at_unix_ms,
        entry@.rtt_ms == entry.rtt_ms,
{
}

/// The model of an answer shows which answer it is and all that it carries.
pub proof fn law_answer_is_shown(step: ApiStep)
    ensures
        match step {
            ApiStep::Health => step@ is Health,
            ApiStep::Token(kind) => step@ == ApiStepModel::Token(kind),
            ApiStep::Nodes(nodes) => step@ is Nodes && step@->Nodes_0.len() == nodes@.len()
                && forall|i: int|
                0 <= i < nodes@.len() ==> #[trigger] step@->Nodes_0[i] == nodes@[i]@,
            ApiStep::Node(node) => step@ is Node && step@->Node_0 == node@,
            ApiStep::Metrics(node_id) => step@ == ApiStepModel::Metrics(node_id),
            ApiStep::Services(services) => step@ is Services && step@->Services_0.len()
                == services@.len() && forall|i: int|
                0 <= i < services@.len() ==> #[trigger] step@->Services_0[i] == services@[i]@,
            ApiStep::Service(service) => step@ is Service && step@->Service_0 == service@,
            ApiStep::Events => step@ is Events,
            ApiStep::ReadTokenMutation(mutation) => step@ == ApiStepModel::ReadTokenMutation(
                mutation,
            ),
            ApiStep::ReadService => step@ is ReadService,
            ApiStep::ServiceDeleted(id) => step@ == ApiStepModel::ServiceDeleted(id),
            ApiStep::Refused(fault) => step@ == ApiStepModel::Refused(fault),
        },
{
}

/// The fixed addresses of the API answer the methods that they are for, and no
/// other.
pub proof fn law_other_methods_are_not_found(
    method: Method,
    kind: Option<TokenKind>,
    state: StateModel,
)
    ensures
        method != Method::Post ==> api_outcome(method, "/v1/admin/tokens/rotate"@, kind, state).step == ApiStepModel::Refused(
            ApiFault::RouteNotFound,
        ),
        method != Method::Post ==> api_outcome(method, "/v1/admin/tokens/revoke"@, kind, state).step == ApiStepModel::Refused(
            ApiFault::RouteNotFound,
        ),
        method != Method::Post ==> api_outcome(method, "/v1/auth/validate"@, kind, state).step == ApiStepModel::Refused(
            ApiFault::RouteNotFound,
        ),
        method != Method::Get ==> api_outcome(method, "/v1/nodes"@, kind, state).step == ApiStepModel::Refused(
            ApiFault::RouteNotFound,
        ),
        method != Method::Get ==> api_outcome(method, "/v1/events"@, kind, state).step == ApiStepModel::Refused(
            ApiFault::RouteNotFound,
        ),
        method != Method::Get ==> api_outcome(method, "/healthz"@, kind, state).step == ApiStepModel::Refused(
            ApiFault::RouteNotFound,
        ),
        method != Method::Get ==> api_outcome(method, "/readyz"@, kind, state).step == ApiStepModel::Refused(
            ApiFault::RouteNotFound,
        ),
        method != Method::Get && method != Method::Post ==> api_outcome(method, "/v1/services"@, kind, state).step == ApiStepModel::Refused(
            ApiFault::RouteNotFound,
        ),
{
    reveal_strlit("/v1/admin/tokens/rotate");
    reveal_strlit("/v1/admin/tokens/revoke");
    reveal_strlit("/v1/auth/validate");
    reveal_strlit("/v1/nodes");
    reveal_strlit("/v1/events");
    reveal_strlit("/healthz");
    reveal_strlit("/readyz");
    reveal_strlit("/v1/services");
    reveal_strlit("/v1/services/");
    reveal_strlit("/v1/nodes/");
    let services = "/v1/services"@;
    assert(services[4] == 's' && services.len() == 12);
    let nodes = "/v1/nodes"@;
    assert(nodes[4] == 'n' && nodes.len() == 9);
    let events = "/v1/events"@;
    assert(events[4] == 'e' && events.len() == 10);
    let validate = "/v1/auth/validate"@;
    assert(validate[5] == 'u' && validate.len() == 17);
    let rotate = "/v1/admin/tokens/rotate"@;
    let revoke = "/v1/admin/tokens/revoke"@;
    assert(rotate[18] == 'o' && revoke[18] == 'e' && rotate[5] == 'd' && revoke[5] == 'd');
    assert(rotate.len() == 23 && revoke.len() == 23);
    let (health, ready) = ("/healthz"@, "/readyz"@);
    assert(health.len() == 8 && ready.len() == 7);
    assert(validate.take(13)[4] == 'a' && rotate.take(13)[4] == 'a' && revoke.take(13)[4] == 'a');
    assert(validate.take(10)[4] == 'a' && rotate.take(10)[4] == 'a' && revoke.take(10)[4] == 'a');
    assert("/v1/services/"@[4] == 's' && "/v1/nodes/"@[4] == 'n');
    assert(services.take(10)[4] == 's' && events.take(10)[4] == 'e');
}

/// Nothing is deleted but at the path of a service.
pub proof fn law_deletions_are_at_service_paths(
    method: Method,
    path: Seq<char>,
    kind: Option<TokenKind>,
    state: StateModel,
)
    requires
        path.len() < "/v1/services/"@.len() || path.take("/v1/services/"@.len() as int)
            != "/v1/services/"@,
    ensures
        api_outcome(method, path, kind, state).state == state,
{
}

/// Metrics are handed out of the node whose identifier has exactly the text in
/// the path, and of no other.
pub proof fn law_metrics_are_of_the_named_node(key: Seq<char>, kind: TokenKind, state: StateModel)
    ensures
        match api_outcome(
            Method::Get,
            "/v1/nodes/"@ + key + "/metrics"@,
            Some(kind),
            state,
        ).step {
            ApiStepModel::Metrics(id) => uuid_text(id.0) == key,
            ApiStepModel::Refused(fault) => fault == ApiFault::NodeNotFound && forall|k: u128| #[trigger]
                state.nodes.contains_key(k) ==> uuid_text(state.nodes[k].node_id.0) != key,
            _ => false,
        },
{
    reveal_strlit("/v1/nodes");
    reveal_strlit("/v1/nodes/");
    reveal_strlit("/metrics");
    let path = "/v1/nodes/"@ + key + "/metrics"@;
    let behind = key + "/metrics"@;
    assert(path.take(10) =~= "/v1/nodes/"@);
    assert(path.skip(10) =~= behind);
    assert(path.len() >= 10);
    assert(behind.skip(behind.len() - 8) =~= "/metrics"@);
    assert(behind.take(behind.len() - 8) =~= key);
    assert(route_of(Method::Get, path) == RouteModel::NodeMetrics(key));
    let q = |n: NodeModel| uuid_text(n.node_id.0) == key;
    match node_named(state.nodes, key) {
        Some(id) => {
            assert(table::is_first(state.nodes, q, id));
        },
        None => {
            assert forall|k: u128| #[trigger] state.nodes.contains_key(k) implies uuid_text(
                state.nodes[k].node_id.0,
            ) != key by {
                if q(state.nodes[k]) {
                    table::lemma_first_match_exists(state.nodes, q, k);
                }
            }
        },
    }
}

} // verus!
