//! The service directory: registration, port leases and routing.

use std::collections::BTreeMap;
use vstd::prelude::*;
use crate::ids::{NodeId, ServiceId};
use crate::metadata::{
    fault_text, metadata_fault, valid_service_name, validate_service_name, ValidationError,
    ValidationFault,
};
use crate::model::{Protocol, ServiceDefinition, ServiceModel};
use crate::state::{ActiveSession, AppState, StateModel};
use crate::table;
use crate::table::{any_match, first_match, first_where, lemma_first_match_view};
use crate::text::{decimal, decimal_text, joined, same_text};

verus! {

/// Whether a TCP service holds the public port `port`.
pub open spec fn holds_port(service: ServiceModel, port: u16) -> bool {
    service.protocol == Protocol::Tcp && service.public_port == Some(port)
}

/// Whether no TCP service holds the public port `port`.
pub open spec fn port_free(services: Map<u128, ServiceModel>, port: u16) -> bool {
    !any_match(services, |s: ServiceModel| holds_port(s, port))
}

/// Whether `port` is the lowest free port from `start` to `end`.
pub open spec fn is_lowest_free(
    services: Map<u128, ServiceModel>,
    start: u16,
    end: u16,
    port: u16,
) -> bool {
    &&& start <= port <= end
    &&& port_free(services, port)
    &&& forall|lower: u16| start <= lower < port ==> !#[trigger] port_free(services, lower)
}

/// The lowest free port from `start` to `end`.
pub open spec fn lowest_free(
    services: Map<u128, ServiceModel>,
    start: u16,
    end: u16,
) -> Option<u16> {
    if exists|port: u16| is_lowest_free(services, start, end, port) {
        Some(choose|port: u16| is_lowest_free(services, start, end, port))
    } else {
        None
    }
}

proof fn lemma_lowest_free(services: Map<u128, ServiceModel>, start: u16, end: u16, port: u16)
    requires
        is_lowest_free(services, start, end, port),
    ensures
        lowest_free(services, start, end) == Some(port),
{
    let chosen = choose|p: u16| is_lowest_free(services, start, end, p);
    assert(is_lowest_free(services, start, end, chosen));
    if chosen < port {
        assert(!port_free(services, chosen));
    } else if port < chosen {
        assert(!port_free(services, port));
    }
}

/// The directory as a map of models.
pub open spec fn directory(services: Map<u128, ServiceDefinition>) -> Map<u128, ServiceModel> {
    services.map_values(|s: ServiceDefinition| s@)
}

/// The lowest port of the relay's range that no TCP service holds; `None` when
/// every one is held.
pub fn first_available_tcp_port(
    services: &BTreeMap<u128, ServiceDefinition>,
    start: u16,
    end: u16,
) -> (r: Option<u16>)
    ensures
        r == lowest_free(directory(services@), start, end),
        r is None <==> forall|port: u16|
            start <= port <= end ==> !#[trigger] port_free(directory(services@), port),
{
    let mut next: u32 = start as u32;
    while next <= end as u32
        invariant
            start <= next <= end + 1 || next == start,
            forall|lower: u16|
                start <= lower < next ==> !#[trigger] port_free(directory(services@), lower),
        decreases end + 1 - next,
    {
        let port: u16 = next as u16;
        let ghost q = |s: ServiceModel| holds_port(s, port);
        let test = |s: &ServiceDefinition| -> (b: bool)
            ensures
                b == holds_port(s@, port),
            {
                s.protocol == Protocol::Tcp && match s.public_port {
                    Some(taken) => taken == port,
                    None => false,
                }
            };
        let held = first_where(services, test, Ghost(|s: ServiceDefinition| q(s@)));
        proof {
            lemma_first_match_view(services@, q);
        }
        if held.is_none() {
            proof {
                lemma_lowest_free(directory(services@), start, end, port);
            }
            return Some(port);
        }
        next += 1;
    }
    None
}

/// Why a service cannot be registered.
#[derive(Debug, PartialEq, Eq)]
pub enum RegisterError {
    Invalid(ValidationError),
    NameInUse,
    NoPortAvailable,
    PortOutsideRange(u16),
    PortLeased(u16),
    IngressNotConfigured,
}

/// `RegisterError` with its texts as sequences of characters.
pub enum RegisterFault {
    Invalid(ValidationFault),
    NameInUse,
    NoPortAvailable,
    PortOutsideRange(u16),
    PortLeased(u16),
    IngressNotConfigured,
}

impl View for RegisterError {
    type V = RegisterFault;

    open spec fn view(&self) -> RegisterFault {
        match self {
            RegisterError::Invalid(error) => RegisterFault::Invalid(error@),
            RegisterError::NameInUse => RegisterFault::NameInUse,
            RegisterError::NoPortAvailable => RegisterFault::NoPortAvailable,
            RegisterError::PortOutsideRange(port) => RegisterFault::PortOutsideRange(*port),
            RegisterError::PortLeased(port) => RegisterFault::PortLeased(*port),
            RegisterError::IngressNotConfigured => RegisterFault::IngressNotConfigured,
        }
    }
}

/// The text of a refused registration.
pub open spec fn register_text(fault: RegisterFault) -> Seq<char> {
    match fault {
        RegisterFault::Invalid(fault) => fault_text(fault),
        RegisterFault::NameInUse => "service name is already in use"@,
        RegisterFault::NoPortAvailable => "no TCP relay ports are available"@,
        RegisterFault::PortOutsideRange(port) => "TCP port "@ + decimal_text(port as nat)
            + " is outside the configured relay range"@,
        RegisterFault::PortLeased(port) => "TCP port "@ + decimal_text(port as nat)
            + " is already leased"@,
        RegisterFault::IngressNotConfigured => "HTTP/HTTPS ingress is not configured on this relay"@,
    }
}

impl RegisterError {
    /// The error as a text for people.
    pub fn message(&self) -> (r: String)
        ensures
            r@ == register_text(self@),
    {
        match self {
            RegisterError::Invalid(error) => error.message(),
            RegisterError::NameInUse => "service name is already in use".to_owned(),
            RegisterError::NoPortAvailable => "no TCP relay ports are available".to_owned(),
            RegisterError::PortOutsideRange(port) => {
                let number = decimal(*port as u64);
                let mut out = joined("TCP port ", number.as_str());
                out.append(" is outside the configured relay range");
                out
            },
            RegisterError::PortLeased(port) => {
                let number = decimal(*port as u64);
                let mut out = joined("TCP port ", number.as_str());
                out.append(" is already leased");
                out
            },
            RegisterError::IngressNotConfigured =>
                "HTTP/HTTPS ingress is not configured on this relay".to_owned(),
        }
    }
}

/// Whether another node publishes a service of this name.
pub open spec fn name_in_use(
    services: Map<u128, ServiceModel>,
    name: Seq<char>,
    node_id: NodeId,
) -> bool {
    any_match(services, |s: ServiceModel| s.service_name == name && s.node_id != node_id)
}

/// The service of this name that the node published before, the first by
/// number if there are several.
pub open spec fn published_before(
    services: Map<u128, ServiceModel>,
    name: Seq<char>,
    node_id: NodeId,
) -> Option<u128> {
    first_match(services, |s: ServiceModel| s.node_id == node_id && s.service_name == name)
}

/// Whether a service other than `service_id` holds the public port `port`.
pub open spec fn leased_to_other(
    services: Map<u128, ServiceModel>,
    port: u16,
    service_id: ServiceId,
) -> bool {
    any_match(services, |s: ServiceModel| s.service_id != service_id && holds_port(s, port))
}

/// A service as it continues the one that its node published under its name: it
/// keeps the identifier, and a TCP service keeps the port of a TCP service.
pub open spec fn continued(
    services: Map<u128, ServiceModel>,
    service: ServiceModel,
    node_id: NodeId,
) -> ServiceModel {
    match published_before(services, service.service_name, node_id) {
        None => service,
        Some(id) => {
            let previous = services[id];
            let port = if previous.protocol == Protocol::Tcp && service.protocol == Protocol::Tcp {
                previous.public_port
            } else {
                service.public_port
            };
            ServiceModel { service_id: previous.service_id, public_port: port, ..service }
        },
    }
}

/// The public address of a service: for TCP a port of the relay, the one that
/// it asks for or the lowest free one; for HTTP a name below the relay's domain.
pub open spec fn addressed(state: StateModel, service: ServiceModel) -> Result<
    ServiceModel,
    RegisterFault,
> {
    if service.protocol == Protocol::Tcp {
        let wanted = match service.public_port {
            Some(port) => Some(port),
            None => lowest_free(state.services, state.tcp_port_start, state.tcp_port_end),
        };
        match wanted {
            None => Err(RegisterFault::NoPortAvailable),
            Some(port) => if port < state.tcp_port_start || port > state.tcp_port_end {
                Err(RegisterFault::PortOutsideRange(port))
            } else if leased_to_other(state.services, port, service.service_id) {
                Err(RegisterFault::PortLeased(port))
            } else {
                Ok(
                    ServiceModel {
                        public_port: Some(port),
                        public_host: Some(state.public_host),
                        ..service
                    },
                )
            },
        }
    } else {
        match state.http_domain {
            None => Err(RegisterFault::IngressNotConfigured),
            Some(domain) => Ok(
                ServiceModel {
                    public_host: Some(service.service_name + "."@ + domain),
                    public_port: None,
                    ..service
                },
            ),
        }
    }
}

/// What a registration leads to: the service as it is published, or why not.
pub open spec fn registration(state: StateModel, service: ServiceModel, node_id: NodeId) -> Result<
    ServiceModel,
    RegisterFault,
> {
    if !valid_service_name(service.service_name) {
        Err(RegisterFault::Invalid(ValidationFault::InvalidServiceName))
    } else if metadata_fault(service.metadata) is Some {
        Err(RegisterFault::Invalid(metadata_fault(service.metadata)->0))
    } else if name_in_use(state.services, service.service_name, node_id) {
        Err(RegisterFault::NameInUse)
    } else {
        addressed(state, continued(state.services, service, node_id))
    }
}

/// The state with a service in the directory.
pub open spec fn with_service(state: StateModel, service: ServiceModel) -> StateModel {
    StateModel { services: state.services.insert(service.service_id.0, service), ..state }
}

fn name_is_in_use(state: &AppState, name: &str, node_id: NodeId) -> (r: bool)
    ensures
        r == name_in_use(state@.services, name@, node_id),
{
    let ghost q = |s: ServiceModel| s.service_name == name@ && s.node_id != node_id;
    let test = |s: &ServiceDefinition| -> (b: bool)
        ensures
            b == (s@.service_name == name@ && s@.node_id != node_id),
        { same_text(s.service_name.as_str(), name) && s.node_id != node_id };
    let found = first_where(&state.services, test, Ghost(|s: ServiceDefinition| q(s@)));
    proof {
        lemma_first_match_view(state.services@, q);
    }
    found.is_some()
}

fn find_published(state: &AppState, name: &str, node_id: NodeId) -> (r: Option<u128>)
    ensures
        r == published_before(state@.services, name@, node_id),
        r matches Some(id) ==> state@.services.contains_key(id),
{
    let ghost q = |s: ServiceModel| s.node_id == node_id && s.service_name == name@;
    let test = |s: &ServiceDefinition| -> (b: bool)
        ensures
            b == (s@.node_id == node_id && s@.service_name == name@),
        { s.node_id == node_id && same_text(s.service_name.as_str(), name) };
    let found = first_where(&state.services, test, Ghost(|s: ServiceDefinition| q(s@)));
    proof {
        lemma_first_match_view(state.services@, q);
    }
    found
}

fn is_leased_to_other(state: &AppState, port: u16, service_id: ServiceId) -> (r: bool)
    ensures
        r == leased_to_other(state@.services, port, service_id),
{
    let ghost q = |s: ServiceModel| s.service_id != service_id && holds_port(s, port);
    let test = |s: &ServiceDefinition| -> (b: bool)
        ensures
            b == (s@.service_id != service_id && holds_port(s@, port)),
        {
            s.service_id != service_id && s.protocol == Protocol::Tcp && match s.public_port {
                Some(taken) => taken == port,
                None => false,
            }
        };
    let found = first_where(&state.services, test, Ghost(|s: ServiceDefinition| q(s@)));
    proof {
        lemma_first_match_view(state.services@, q);
    }
    found.is_some()
}

/// Registers a service of a node in the directory and returns it as it is
/// published.
///
/// A name belongs to one node. A node that publishes a name again continues
/// its service: the identifier stays, and between TCP services the port stays
/// too. A refused registration changes nothing.
pub fn register_service(
    state: &mut AppState,
    service: ServiceDefinition,
    node_id: NodeId,
) -> (r: Result<ServiceDefinition, RegisterError>)
    ensures
        match r {
            Ok(published) => {
                &&& registration(old(state)@, service@, node_id) == Ok::<_, RegisterFault>(
                    published@,
                )
                &&& final(state)@ == with_service(old(state)@, published@)
            },
            Err(error) => {
                &&& registration(old(state)@, service@, node_id) == Err::<ServiceModel, _>(error@)
                &&& final(state)@ == old(state)@
            },
        },
{
    let ghost asked = service@;
    if let Err(error) = validate_service_name(service.service_name.as_str()) {
        return Err(RegisterError::Invalid(error));
    }
    if let Err(error) = service.metadata.validate() {
        return Err(RegisterError::Invalid(error));
    }
    if name_is_in_use(state, service.service_name.as_str(), node_id) {
        return Err(RegisterError::NameInUse);
    }
    let mut service = service;
    if let Some(id) = find_published(state, service.service_name.as_str(), node_id) {
        if let Some(previous) = state.service(id) {
            service.service_id = previous.service_id;
            if previous.protocol == Protocol::Tcp && service.protocol == Protocol::Tcp {
                service.public_port = previous.public_port;
            }
        }
    }
    assert(service@ == continued(state@.services, asked, node_id));
    match service.protocol {
        Protocol::Tcp => {
            let wanted = match service.public_port {
                Some(port) => Some(port),
                None => first_available_tcp_port(
                    &state.services,
                    state.tcp_port_start,
                    state.tcp_port_end,
                ),
            };
            let port: u16 = match wanted {
                Some(port) => port,
                None => return Err(RegisterError::NoPortAvailable),
            };
            if port < state.tcp_port_start || port > state.tcp_port_end {
                return Err(RegisterError::PortOutsideRange(port));
            }
            if is_leased_to_other(state, port, service.service_id) {
                return Err(RegisterError::PortLeased(port));
            }
            service.public_port = Some(port);
            service.public_host = Some(state.public_host.clone());
        },
        Protocol::Http | Protocol::Https => {
            let host = match &state.http_domain {
                Some(domain) => {
                    let mut host = joined(service.service_name.as_str(), ".");
                    host.append(domain.as_str());
                    host
                },
                None => return Err(RegisterError::IngressNotConfigured),
            };
            service.public_host = Some(host);
            service.public_port = None;
        },
    }
    state.set_service(service.service_id.0, service.clone());
    Ok(service)
}

/// Whether the directory holds this service as one of this node.
pub open spec fn owns_service(state: StateModel, service_id: ServiceId, node_id: NodeId) -> bool {
    state.services.contains_key(service_id.0) && state.services[service_id.0].node_id == node_id
}

/// Takes a service out of the directory on behalf of a node; whether it did,
/// which it does for the services of that node alone.
pub fn unregister_service(service_id: ServiceId, node_id: NodeId, state: &mut AppState) -> (r: bool)
    ensures
        r == owns_service(old(state)@, service_id, node_id),
        final(state)@ == (if r {
            StateModel { services: old(state)@.services.remove(service_id.0), ..old(state)@ }
        } else {
            old(state)@
        }),
{
    let owned = match state.service(service_id.0) {
        Some(service) => service.node_id == node_id,
        None => false,
    };
    if owned {
        state.remove_service(service_id.0);
    }
    owned
}

/// What to do so that the public port of a service is listened on.
#[derive(Clone, Copy, Debug, PartialEq, Eq, Structural)]
pub enum IngressAction {
    /// The service has no port.
    NoPort,
    /// There is nothing to do.
    AlreadyListening,
    /// Listen on this port.
    Listen(u16),
}

/// Decides what to do so that the public port of a service is listened on.
pub fn ensure_tcp_ingress(state: &AppState, service: &ServiceDefinition) -> (r: IngressAction)
    ensures
        r == match service.public_port {
            None => IngressAction::NoPort,
            Some(port) => if state@.tcp_ingress.contains(service.service_id.0) {
                IngressAction::AlreadyListening
            } else {
                IngressAction::Listen(port)
            },
        },
{
    broadcast use vstd::std_specs::btree::group_btree_axioms;
    broadcast use vstd::laws_cmp::group_laws_cmp;

    assert(vstd::laws_cmp::obeys_cmp::<u128>());
    match service.public_port {
        None => IngressAction::NoPort,
        Some(port) => if state.tcp_ingress.contains(&service.service_id.0) {
            IngressAction::AlreadyListening
        } else {
            IngressAction::Listen(port)
        },
    }
}

/// Why a registered service is taken out of the directory again.
#[derive(Clone, Copy, Debug, PartialEq, Eq, Structural)]
pub struct NotListening {
    /// The service, which is to be deleted from the store.
    pub service_id: ServiceId,
}

impl NotListening {
    /// The error as a text for people.
    pub fn message(&self) -> (r: String)
        ensures
            r@ == "failed to activate TCP relay port"@,
    {
        "failed to activate TCP relay port".to_owned()
    }
}

/// Whether a service can be reached, given whether its public port is listened
/// on. Only TCP services have a port of their own.
pub open spec fn is_reachable(service: ServiceModel, listening: bool) -> bool {
    service.protocol != Protocol::Tcp || listening
}

/// The state after it is known whether the port of a registered service is
/// listened on: a service that cannot be reached is not published.
pub open spec fn after_listening(
    state: StateModel,
    service: ServiceModel,
    listening: bool,
) -> StateModel {
    if is_reachable(service, listening) {
        state
    } else {
        StateModel { services: state.services.remove(service.service_id.0), ..state }
    }
}

/// Ends the publication of a registered service, given whether its public port
/// is listened on: a TCP service without a listener is taken out of the
/// directory again.
pub fn settle_publication(service: ServiceDefinition, listening: bool, state: &mut AppState) -> (r:
    Result<ServiceDefinition, NotListening>)
    ensures
        final(state)@ == after_listening(old(state)@, service@, listening),
        match r {
            Ok(published) => is_reachable(service@, listening) && published@ == service@,
            Err(error) => !is_reachable(service@, listening) && error.service_id
                == service@.service_id,
        },
{
    if service.protocol != Protocol::Tcp || listening {
        return Ok(service);
    }
    state.remove_service(service.service_id.0);
    Err(NotListening { service_id: service.service_id })
}

/// Notes that the port of a service is listened on; whether it was before, in
/// which case the earlier listener is to be stopped.
pub fn ingress_started(state: &mut AppState, service_id: ServiceId) -> (r: bool)
    ensures
        r == old(state)@.tcp_ingress.contains(service_id.0),
        final(state)@ == (StateModel {
            tcp_ingress: old(state)@.tcp_ingress.insert(service_id.0),
            ..old(state)@
        }),
{
    broadcast use vstd::std_specs::btree::group_btree_axioms;
    broadcast use vstd::laws_cmp::group_laws_cmp;

    assert(vstd::laws_cmp::obeys_cmp::<u128>());
    !state.tcp_ingress.insert(service_id.0)
}

/// Notes that the port of a service is no longer listened on; whether it was,
/// in which case the listener is to be stopped.
pub fn ingress_stopped(state: &mut AppState, service_id: ServiceId) -> (r: bool)
    ensures
        r == old(state)@.tcp_ingress.contains(service_id.0),
        final(state)@ == (StateModel {
            tcp_ingress: old(state)@.tcp_ingress.remove(service_id.0),
            ..old(state)@
        }),
{
    broadcast use vstd::std_specs::btree::group_btree_axioms;
    broadcast use vstd::laws_cmp::group_laws_cmp;

    assert(vstd::laws_cmp::obeys_cmp::<u128>());
    let was = state.tcp_ingress.remove(&service_id.0);
    assert(state.tcp_ingress@ =~= old(state).tcp_ingress@.remove(service_id.0));
    was
}

/// The TCP services of the directory in the order of their numbers. Their
/// leases outlive a restart, so their ports are listened on again.
pub fn persisted_tcp_services(state: &AppState) -> (r: Vec<ServiceDefinition>)
    ensures
        table::lists_matching(
            r@.map_values(|s: ServiceDefinition| s@),
            state@.services,
            |s: ServiceModel| s.protocol == Protocol::Tcp,
        ),
{
    let keys = table::keys_of(&state.services);
    let mut out: Vec<ServiceDefinition> = Vec::new();
    let ghost mut at: Seq<u128> = seq![];
    let ghost services = state@.services;
    let ghost tcp = |s: ServiceModel| s.protocol == Protocol::Tcp;
    let mut i: usize = 0;
    while i < keys.len()
        invariant
            i <= keys@.len(),
            services == state@.services,
            tcp == (|s: ServiceModel| s.protocol == Protocol::Tcp),
            table::lists_keys(keys@, state.services@),
            table::increasing(at),
            out@.len() == at.len(),
            forall|j: int| 0 <= j < at.len() ==> i > 0 && #[trigger] at[j] <= keys@[i - 1],
            forall|k: u128| #[trigger]
                at.contains(k) <==> keys@.take(i as int).contains(k) && tcp(services[k]),
            forall|j: int| 0 <= j < out@.len() ==> (#[trigger] out@[j])@ == services[at[j]],
        decreases keys@.len() - i,
    {
        let k: u128 = keys[i];
        assert(keys@.contains(k));
        assert(state.services@.contains_key(k));
        let ghost before = at;
        assert(keys@.take(i + 1) =~= keys@.take(i as int).push(k));
        assert forall|j: int| 0 <= j < before.len() implies #[trigger] before[j] < k by {
            assert(i > 0 && at[j] <= keys@[i - 1]);
            assert(keys@[i - 1] < keys@[i as int]);
        }
        if let Some(service) = state.service(k) {
            if service.protocol == Protocol::Tcp {
                out.push(service.clone());
                proof {
                    at = before.push(k);
                    assert(at[before.len() as int] == k);
                    assert forall|x: u128| #[trigger]
                        at.contains(x) <==> before.contains(x) || x == k by {
                        if before.contains(x) {
                            let j = choose|j: int| 0 <= j < before.len() && before[j] == x;
                            assert(at[j] == x);
                        }
                    }
                }
            }
        }
        assert forall|x: u128| #[trigger]
            at.contains(x) <==> keys@.take(i + 1).contains(x) && tcp(services[x]) by {
            if keys@.take(i as int).contains(x) {
                let j = choose|j: int| 0 <= j < i && keys@.take(i as int)[j] == x;
                assert(keys@.take(i + 1)[j] == x);
            }
            assert(keys@.take(i + 1)[i as int] == k);
            assert(keys@.take(i + 1).contains(x) <==> keys@.take(i as int).contains(x) || x == k);
            assert(at.contains(x) <==> before.contains(x) || (x == k && tcp(services[k])));
        }
        i += 1;
    }
    proof {
        assert(keys@.take(i as int) =~= keys@);
        let listed = out@.map_values(|s: ServiceDefinition| s@);
        assert forall|k: u128| #[trigger] at.contains(k) <==> services.contains_key(k) && tcp(
            services[k],
        ) by {
            assert(services.contains_key(k) <==> state.services@.contains_key(k));
        }
        assert(table::lists_matching_at(listed, services, tcp, at));
    }
    out
}

/// Why a visitor cannot be connected to a service.
#[derive(Clone, Copy, Debug, PartialEq, Eq, Structural)]
pub enum RouteError {
    NotRegistered,
    NodeOffline,
}

impl RouteError {
    /// The error as a text for people.
    pub fn message(&self) -> (r: String)
        ensures
            r@ == match self {
                RouteError::NotRegistered => "service is no longer registered"@,
                RouteError::NodeOffline => "service node is offline"@,
            },
    {
        match self {
            RouteError::NotRegistered => "service is no longer registered".to_owned(),
            RouteError::NodeOffline => "service node is offline".to_owned(),
        }
    }
}

/// The session over which a service is reached: that of the node that
/// publishes it.
pub open spec fn route(state: StateModel, service_id: ServiceId) -> Result<
    ActiveSession,
    RouteError,
> {
    if !state.services.contains_key(service_id.0) {
        Err(RouteError::NotRegistered)
    } else {
        let node = state.services[service_id.0].node_id.0;
        if state.sessions.contains_key(node) {
            Ok(state.sessions[node])
        } else {
            Err(RouteError::NodeOffline)
        }
    }
}

/// Finds the session over which a service is reached.
pub fn route_to_service(state: &AppState, service_id: ServiceId) -> (r: Result<
    ActiveSession,
    RouteError,
>)
    ensures
        r == route(state@, service_id),
{
    match state.service(service_id.0) {
        None => Err(RouteError::NotRegistered),
        Some(service) => match table::find(&state.sessions, service.node_id.0) {
            Some(session) => Ok(*session),
            None => Err(RouteError::NodeOffline),
        },
    }
}

/// The first service by number that is published for this protocol under this
/// host name.
pub open spec fn service_at_host(
    services: Map<u128, ServiceModel>,
    protocol: Protocol,
    host: Seq<char>,
) -> Option<u128> {
    first_match(services, |s: ServiceModel| s.protocol == protocol && s.public_host == Some(host))
}

/// Finds the service that is published for this protocol under this host name.
pub fn find_service_at_host(state: &AppState, protocol: Protocol, host: &str) -> (r: Option<
    ServiceId,
>)
    ensures
        r == match service_at_host(state@.services, protocol, host@) {
            Some(id) => Some(state@.services[id].service_id),
            None => None,
        },
{
    let ghost q = |s: ServiceModel| s.protocol == protocol && s.public_host == Some(host@);
    let test = |s: &ServiceDefinition| -> (b: bool)
        ensures
            b == (s@.protocol == protocol && s@.public_host == Some(host@)),
        {
            s.protocol == protocol && match &s.public_host {
                Some(published) => same_text(published.as_str(), host),
                None => false,
            }
        };
    let found = first_where(&state.services, test, Ghost(|s: ServiceDefinition| q(s@)));
    proof {
        lemma_first_match_view(state.services@, q);
    }
    match found {
        Some(id) => match state.service(id) {
            Some(service) => Some(service.service_id),
            None => None,
        },
        None => None,
    }
}

/// Whether a service has the address that the relay gives to its kind: a TCP
/// service a port of the relay at the relay's own host name, an HTTP service a
/// host name below the relay's domain.
pub open spec fn well_addressed(state: StateModel, service: ServiceModel) -> bool {
    if service.protocol == Protocol::Tcp {
        &&& service.public_host == Some(state.public_host)
        &&& service.public_port is Some
        &&& state.tcp_port_start <= service.public_port->0 <= state.tcp_port_end
    } else {
        &&& state.http_domain is Some
        &&& service.public_host == Some(service.service_name + "."@ + state.http_domain->0)
        &&& service.public_port is None
    }
}

/// Whether services get along: every one stands at its number with a valid name
/// and metadata, no two have the same name, and no two hold the same port. This
/// does not depend on the relay's settings, so it outlives a restart with others.
pub open spec fn consistent(services: Map<u128, ServiceModel>) -> bool {
    &&& forall|k: u128| #[trigger]
        services.contains_key(k) ==> {
            &&& services[k].service_id == ServiceId(k)
            &&& valid_service_name(services[k].service_name)
            &&& metadata_fault(services[k].metadata) is None
        }
    &&& forall|k: u128, j: u128| #[trigger]
        services.contains_key(k) && #[trigger] services.contains_key(j) && k != j
            ==> services[k].service_name != services[j].service_name
    &&& forall|k: u128, j: u128, port: u16|
        services.contains_key(k) && services.contains_key(j) && #[trigger] holds_port(
            services[k],
            port,
        ) && #[trigger] holds_port(services[j], port) ==> k == j
}

/// Whether the directory is in order: the services get along, and every one has
/// the address that the relay gives to its kind.
pub open spec fn directory_in_order(state: StateModel) -> bool {
    &&& consistent(state.services)
    &&& forall|k: u128| #[trigger]
        state.services.contains_key(k) ==> well_addressed(state, state.services[k])
}

/// Among services that get along the one that a node published under a name is
/// found by that name.
proof fn lemma_found_by_name(state: StateModel, k: u128)
    requires
        consistent(state.services),
        state.services.contains_key(k),
    ensures
        published_before(state.services, state.services[k].service_name, state.services[k].node_id)
            == Some(k),
        !name_in_use(state.services, state.services[k].service_name, state.services[k].node_id),
{
    let services = state.services;
    let name = services[k].service_name;
    let node = services[k].node_id;
    let q = |s: ServiceModel| s.node_id == node && s.service_name == name;
    assert(table::is_first(services, q, k));
    table::lemma_first_match(services, q, k);
}

/// What a registration publishes is the service that was asked for, under its
/// own identifier or under that of the service it continues.
proof fn lemma_published(state: StateModel, service: ServiceModel, node_id: NodeId)
    requires
        consistent(state.services),
        registration(state, service, node_id) is Ok,
    ensures
        ({
            let published = registration(state, service, node_id)->Ok_0;
            let before = published_before(state.services, service.service_name, node_id);
            &&& published.service_name == service.service_name
            &&& published.metadata == service.metadata
            &&& published.node_id == service.node_id
            &&& published.protocol == service.protocol
            &&& published.local_address == service.local_address
            &&& well_addressed(state, published)
            &&& before is None ==> published.service_id == service.service_id
            &&& before is Some ==> published.service_id == ServiceId(before->0)
                && state.services.contains_key(before->0)
        }),
{
    let q = |s: ServiceModel| s.node_id == node_id && s.service_name == service.service_name;
    if exists|k: u128| table::is_first(state.services, q, k) {
        let k = choose|k: u128| table::is_first(state.services, q, k);
        table::lemma_first_match(state.services, q, k);
    }
}

/// A registration leaves services that get along, whatever the settings were
/// under which the others were registered, and it keeps the directory in order.
pub proof fn law_registration_keeps_order(
    state: StateModel,
    service: ServiceModel,
    node_id: NodeId,
)
    requires
        consistent(state.services),
        registration(state, service, node_id) is Ok,
    ensures
        ({
            let after = with_service(state, registration(state, service, node_id)->Ok_0);
            &&& consistent(after.services)
            &&& directory_in_order(state) ==> directory_in_order(after)
        }),
{
    let published = registration(state, service, node_id)->Ok_0;
    let id = published.service_id.0;
    let services = state.services;
    let after = with_service(state, published);
    lemma_published(state, service, node_id);
    assert forall|k: u128| #[trigger] services.contains_key(k) && k != id implies services[k].service_name
        != published.service_name by {
        if services[k].service_name == published.service_name {
            let q = |s: ServiceModel|
                s.service_name == service.service_name && s.node_id != node_id;
            assert(!any_match(services, q));
            assert(!q(services[k]));
            lemma_found_by_name(state, k);
        }
    }
    assert forall|k: u128, port: u16| services.contains_key(k) && k != id && #[trigger] holds_port(
        services[k],
        port,
    ) implies !holds_port(published, port) by {
        if holds_port(published, port) {
            let q = |s: ServiceModel| s.service_id != published.service_id && holds_port(s, port);
            assert(!leased_to_other(services, port, published.service_id));
            assert(!any_match(services, q));
            assert(!q(services[k]));
        }
    }
    assert forall|k: u128| #[trigger] after.services.contains_key(k) implies k == id
        || services.contains_key(k) && after.services[k] == services[k] by {}
    assert forall|k: u128, j: u128, port: u16|
        after.services.contains_key(k) && after.services.contains_key(j) && #[trigger] holds_port(
            after.services[k],
            port,
        ) && #[trigger] holds_port(after.services[j], port) implies k == j by {
        if k != id && j != id {
            assert(holds_port(services[k], port) && holds_port(services[j], port));
        } else if k != id {
            assert(holds_port(services[k], port));
        } else if j != id {
            assert(holds_port(services[j], port));
        }
    }
    if directory_in_order(state) {
        assert forall|k: u128| #[trigger] after.services.contains_key(k) implies well_addressed(
            after,
            after.services[k],
        ) by {
            if k != id {
                assert(well_addressed(state, services[k]));
            }
        }
    }
}

/// Taking a service out leaves services that get along, and keeps the directory
/// in order.
pub proof fn law_removal_keeps_order(state: StateModel, id: u128)
    requires
        consistent(state.services),
    ensures
        consistent(state.services.remove(id)),
        directory_in_order(state) ==> directory_in_order(
            StateModel { services: state.services.remove(id), ..state },
        ),
{
    let services = state.services;
    let after = StateModel { services: services.remove(id), ..state };
    assert forall|k: u128| #[trigger] after.services.contains_key(k) implies services.contains_key(k)
        && after.services[k] == services[k] by {}
    assert forall|k: u128, j: u128, port: u16|
        after.services.contains_key(k) && after.services.contains_key(j) && #[trigger] holds_port(
            after.services[k],
            port,
        ) && #[trigger] holds_port(after.services[j], port) implies k == j by {
        assert(holds_port(services[k], port) && holds_port(services[j], port));
    }
    if directory_in_order(state) {
        assert forall|k: u128| #[trigger] after.services.contains_key(k) implies well_addressed(
            after,
            after.services[k],
        ) by {
            assert(well_addressed(state, services[k]));
        }
    }
}

/// A name that one node publishes is refused to every other node.
pub proof fn law_name_belongs_to_one_node(
    state: StateModel,
    k: u128,
    service: ServiceModel,
    node_id: NodeId,
)
    requires
        state.services.contains_key(k),
        state.services[k].service_name == service.service_name,
        state.services[k].node_id != node_id,
        valid_service_name(service.service_name),
        metadata_fault(service.metadata) is None,
    ensures
        registration(state, service, node_id) == Err::<ServiceModel, _>(RegisterFault::NameInUse),
{
    let q = |s: ServiceModel| s.service_name == service.service_name && s.node_id != node_id;
    assert(q(state.services[k]));
    assert(any_match(state.services, q));
}

/// A node that publishes a TCP service again, whatever port it now asks for,
/// gets the identifier and the port that it had.
pub proof fn law_lease_survives_republication(
    state: StateModel,
    first: ServiceModel,
    again: ServiceModel,
    node_id: NodeId,
)
    requires
        consistent(state.services),
        registration(state, first, node_id) is Ok,
        first.node_id == node_id,
        first.protocol == Protocol::Tcp,
        again.protocol == Protocol::Tcp,
        again.service_name == first.service_name,
        metadata_fault(again.metadata) is None,
    ensures
        ({
            let published = registration(state, first, node_id)->Ok_0;
            let then = registration(with_service(state, published), again, node_id);
            &&& then is Ok
            &&& then->Ok_0.service_id == published.service_id
            &&& then->Ok_0.public_port == published.public_port
        }),
{
    let published = registration(state, first, node_id)->Ok_0;
    let id = published.service_id.0;
    let after = with_service(state, published);
    lemma_published(state, first, node_id);
    law_registration_keeps_order(state, first, node_id);
    assert(after.services.contains_key(id));
    lemma_found_by_name(after, id);
    let port = published.public_port->0;
    let q = |s: ServiceModel| s.service_id != published.service_id && holds_port(s, port);
    assert(!any_match(after.services, q)) by {
        if any_match(after.services, q) {
            let k = choose|k: u128| #[trigger] after.services.contains_key(k) && q(
                after.services[k],
            );
            assert(k != id);
            assert(holds_port(after.services[k], port) && holds_port(after.services[id], port));
        }
    }
}

/// Taking out a service that was registered leaves the directory as it was
/// before the registration, but for the service that it continued, if there
/// was one.
pub proof fn law_removal_undoes_registration(
    state: StateModel,
    service: ServiceModel,
    node_id: NodeId,
)
    requires
        registration(state, service, node_id) is Ok,
    ensures
        ({
            let published = registration(state, service, node_id)->Ok_0;
            let id = published.service_id.0;
            &&& with_service(state, published).services.remove(id) == state.services.remove(id)
            &&& !state.services.contains_key(id) ==> state.services.remove(id) == state.services
        }),
{
    let published = registration(state, service, node_id)->Ok_0;
    let id = published.service_id.0;
    assert(with_service(state, published).services.remove(id) =~= state.services.remove(id));
    if !state.services.contains_key(id) {
        assert(state.services.remove(id) =~= state.services);
    }
}

/// A TCP service whose port cannot be listened on is not published: what is
/// left is the directory before the registration without that service, and
/// every other service is as it was.
pub proof fn law_unreachable_service_is_withdrawn(
    state: StateModel,
    service: ServiceModel,
    node_id: NodeId,
)
    requires
        service.protocol == Protocol::Tcp,
        registration(state, service, node_id) is Ok,
    ensures
        ({
            let published = registration(state, service, node_id)->Ok_0;
            let id = published.service_id.0;
            let left = after_listening(with_service(state, published), published, false);
            &&& !left.services.contains_key(id)
            &&& left == (StateModel { services: state.services.remove(id), ..state })
            &&& consistent(state.services) ==> consistent(left.services)
            &&& directory_in_order(state) ==> directory_in_order(left)
        }),
{
    let published = registration(state, service, node_id)->Ok_0;
    law_removal_undoes_registration(state, service, node_id);
    if consistent(state.services) {
        law_removal_keeps_order(state, published.service_id.0);
    }
}

/// A published HTTP or HTTPS service is the one that is found at its public
/// host name.
pub proof fn law_http_service_is_found(state: StateModel, k: u128)
    requires
        directory_in_order(state),
        state.services.contains_key(k),
        state.services[k].protocol != Protocol::Tcp,
    ensures
        state.services[k].public_host is Some,
        service_at_host(
            state.services,
            state.services[k].protocol,
            state.services[k].public_host->0,
        ) == Some(k),
{
    let services = state.services;
    let host = services[k].public_host->0;
    let protocol = services[k].protocol;
    let domain = state.http_domain->0;
    let q = |s: ServiceModel| s.protocol == protocol && s.public_host == Some(host);
    assert(well_addressed(state, services[k]));
    assert forall|j: u128| #[trigger] services.contains_key(j) && j < k implies !q(services[j]) by {
        if q(services[j]) {
            let a = services[j].service_name;
            let b = services[k].service_name;
            assert(well_addressed(state, services[j]));
            assert(a + "."@ + domain == b + "."@ + domain);
            assert((a + "."@ + domain).len() == a.len() + "."@.len() + domain.len());
            assert((b + "."@ + domain).len() == b.len() + "."@.len() + domain.len());
            assert(a =~= (a + "."@ + domain).take(a.len() as int));
            assert(b =~= (b + "."@ + domain).take(b.len() as int));
        }
    }
    assert(table::is_first(services, q, k));
    table::lemma_first_match(services, q, k);
}

/// Whether two directories differ in the metadata of their services at most.
pub open spec fn same_but_metadata(a: Map<u128, ServiceModel>, b: Map<u128, ServiceModel>) -> bool {
    &&& forall|k: u128| #[trigger] a.contains_key(k) <==> b.contains_key(k)
    &&& forall|k: u128| #[trigger]
        a.contains_key(k) ==> b[k] == (ServiceModel { metadata: b[k].metadata, ..a[k] })
}

/// Metadata has no part in routing: neither the service at a host name nor the
/// session over which a service is reached depends on it.
pub proof fn law_metadata_does_not_route(
    state: StateModel,
    other: Map<u128, ServiceModel>,
    protocol: Protocol,
    host: Seq<char>,
    service_id: ServiceId,
)
    requires
        same_but_metadata(state.services, other),
    ensures
        service_at_host(other, protocol, host) == service_at_host(state.services, protocol, host),
        route(StateModel { services: other, ..state }, service_id) == route(state, service_id),
{
    let mine = state.services;
    let q = |s: ServiceModel| s.protocol == protocol && s.public_host == Some(host);
    assert(mine.contains_key(service_id.0) <==> other.contains_key(service_id.0));
    assert forall|k: u128| table::is_first(mine, q, k) <==> table::is_first(other, q, k) by {
        assert(mine.contains_key(k) <==> other.contains_key(k));
        if table::is_first(mine, q, k) {
            assert forall|j: u128| #[trigger] other.contains_key(j) && j < k implies !q(
                other[j],
            ) by {
                assert(mine.contains_key(j));
            }
        }
        if table::is_first(other, q, k) {
            assert forall|j: u128| #[trigger] mine.contains_key(j) && j < k implies !q(mine[j]) by {
                assert(other.contains_key(j));
            }
        }
    }
    if exists|k: u128| table::is_first(mine, q, k) {
        let k = choose|k: u128| table::is_first(mine, q, k);
        table::lemma_first_match(mine, q, k);
        table::lemma_first_match(other, q, k);
    }
}

/// What is published is what was asked for: the name, the node, the protocol,
/// the local address and the metadata are those of the request.
pub proof fn law_published_as_asked(state: StateModel, service: ServiceModel, node_id: NodeId)
    requires
        registration(state, service, node_id) is Ok,
    ensures
        ({
            let published = registration(state, service, node_id)->Ok_0;
            &&& published.service_name == service.service_name
            &&& published.node_id == service.node_id
            &&& published.protocol == service.protocol
            &&& published.local_address == service.local_address
            &&& published.metadata == service.metadata
        }),
{
}

/// A published TCP service is reached at the relay's own host name, whether or
/// not the relay has a domain for HTTP, on a port of the relay's range that no
/// other TCP service holds.
pub proof fn law_tcp_service_is_at_the_relay(
    state: StateModel,
    service: ServiceModel,
    node_id: NodeId,
    k: u128,
)
    requires
        service.protocol == Protocol::Tcp,
        registration(state, service, node_id) is Ok,
    ensures
        ({
            let published = registration(state, service, node_id)->Ok_0;
            &&& published.public_host == Some(state.public_host)
            &&& published.public_port is Some
            &&& state.tcp_port_start <= published.public_port->0 <= state.tcp_port_end
            &&& state.services.contains_key(k) && state.services[k].protocol == Protocol::Tcp
                && state.services[k].public_port == published.public_port
                ==> state.services[k].service_id == published.service_id
        }),
{
    let published = registration(state, service, node_id)->Ok_0;
    let port = published.public_port->0;
    let q = |s: ServiceModel| s.service_id != published.service_id && holds_port(s, port);
    assert(!leased_to_other(state.services, port, published.service_id));
    assert(!any_match(state.services, q));
    if state.services.contains_key(k) {
        assert(!q(state.services[k]));
    }
}

/// A published HTTP or HTTPS service is reached at its name below the relay's
/// domain, and has no port of its own.
pub proof fn law_http_service_is_below_the_domain(
    state: StateModel,
    service: ServiceModel,
    node_id: NodeId,
)
    requires
        service.protocol != Protocol::Tcp,
        registration(state, service, node_id) is Ok,
    ensures
        ({
            let published = registration(state, service, node_id)->Ok_0;
            &&& state.http_domain is Some
            &&& published.public_host == Some(
                service.service_name + "."@ + state.http_domain->0,
            )
            &&& published.public_port is None
        }),
{
}

proof fn lemma_not_published_before(
    services: Map<u128, ServiceModel>,
    name: Seq<char>,
    node_id: NodeId,
)
    requires
        forall|k: u128| #[trigger]
            services.contains_key(k) && services[k].node_id == node_id ==> services[k].service_name
                != name,
    ensures
        published_before(services, name, node_id) is None,
{
    let q = |s: ServiceModel| s.node_id == node_id && s.service_name == name;
    assert(!any_match(services, q));
    table::lemma_no_match(services, q);
}

/// A service under a name that its node has not published keeps the identifier
/// of the request, and a TCP service that asks for a port gets that port.
pub proof fn law_new_name_is_published_as_it_is(
    state: StateModel,
    service: ServiceModel,
    node_id: NodeId,
)
    requires
        registration(state, service, node_id) is Ok,
        forall|k: u128| #[trigger]
            state.services.contains_key(k) && state.services[k].node_id == node_id
                ==> state.services[k].service_name != service.service_name,
    ensures
        ({
            let published = registration(state, service, node_id)->Ok_0;
            &&& published.service_id == service.service_id
            &&& service.protocol == Protocol::Tcp && service.public_port is Some
                ==> published.public_port == service.public_port
        }),
{
    lemma_not_published_before(state.services, service.service_name, node_id);
}

/// A TCP service that asks for no port, and whose node has no TCP service of
/// that name, gets the lowest port that is free: every lower port of the range
/// is held by a TCP service.
pub proof fn law_lowest_port_is_leased(
    state: StateModel,
    service: ServiceModel,
    node_id: NodeId,
    lower: u16,
)
    requires
        service.protocol == Protocol::Tcp,
        service.public_port is None,
        registration(state, service, node_id) is Ok,
        forall|k: u128| #[trigger]
            state.services.contains_key(k) && state.services[k].node_id == node_id
                && state.services[k].service_name == service.service_name
                ==> state.services[k].protocol != Protocol::Tcp,
        state.tcp_port_start <= lower,
        lower < registration(state, service, node_id)->Ok_0.public_port->0,
    ensures
        exists|k: u128| #[trigger]
            state.services.contains_key(k) && state.services[k].protocol == Protocol::Tcp
                && state.services[k].public_port == Some(lower),
{
    lemma_previous_is_own(state.services, service.service_name, node_id);
    let port = registration(state, service, node_id)->Ok_0.public_port->0;
    let (start, end) = (state.tcp_port_start, state.tcp_port_end);
    let chosen = choose|p: u16| is_lowest_free(state.services, start, end, p);
    assert(is_lowest_free(state.services, start, end, chosen) && chosen == port);
    assert(!port_free(state.services, lower));
    let q = |s: ServiceModel| holds_port(s, lower);
    assert(any_match(state.services, q));
    let k = choose|k: u128| #[trigger] state.services.contains_key(k) && q(state.services[k]);
    assert(state.services.contains_key(k) && holds_port(state.services[k], lower));
}

proof fn lemma_previous_is_own(
    services: Map<u128, ServiceModel>,
    name: Seq<char>,
    node_id: NodeId,
)
    ensures
        published_before(services, name, node_id) matches Some(k) ==> services.contains_key(k)
            && services[k].node_id == node_id && services[k].service_name == name,
{
    let q = |s: ServiceModel| s.node_id == node_id && s.service_name == name;
    if exists|k: u128| table::is_first(services, q, k) {
        let k = choose|k: u128| table::is_first(services, q, k);
        assert(table::is_first(services, q, k));
    }
}

/// A node may publish a name for TCP that it published for HTTP before: it gets
/// the port that it asks for, or else a free one.
pub proof fn law_service_may_change_to_tcp(
    state: StateModel,
    service: ServiceModel,
    node_id: NodeId,
    port: u16,
)
    requires
        service.protocol == Protocol::Tcp,
        service.public_port is None || service.public_port == Some(port),
        valid_service_name(service.service_name),
        metadata_fault(service.metadata) is None,
        state.tcp_port_start <= port <= state.tcp_port_end,
        forall|k: u128| #[trigger]
            state.services.contains_key(k) ==> {
                &&& state.services[k].service_name == service.service_name
                    ==> state.services[k].node_id == node_id && state.services[k].protocol
                    != Protocol::Tcp
                &&& state.services[k].protocol == Protocol::Tcp ==> state.services[k].public_port
                    != Some(port)
            },
    ensures
        registration(state, service, node_id) is Ok,
{
    let services = state.services;
    let q = |s: ServiceModel| s.service_name == service.service_name && s.node_id != node_id;
    assert(!any_match(services, q));
    lemma_previous_is_own(services, service.service_name, node_id);
    let asked = continued(services, service, node_id);
    assert(asked.public_port == service.public_port);
    let (start, end) = (state.tcp_port_start, state.tcp_port_end);
    assert(!any_match(services, |s: ServiceModel| holds_port(s, port)));
    assert(port_free(services, port));
    lemma_lowest_free_exists(services, start, end, port);
    let given = match service.public_port {
        Some(port) => port,
        None => lowest_free(services, start, end)->0,
    };
    if service.public_port is None {
        assert(is_lowest_free(services, start, end, given));
    }
    assert(port_free(services, given));
    let held = |s: ServiceModel| holds_port(s, given);
    assert(!any_match(services, held));
    let taken = |s: ServiceModel| s.service_id != asked.service_id && holds_port(s, given);
    assert(!any_match(services, taken)) by {
        if any_match(services, taken) {
            let k = choose|k: u128| #[trigger] services.contains_key(k) && taken(services[k]);
            assert(held(services[k]));
        }
    }
}

/// A node that publishes a name again continues its service: the identifier
/// stays, and between TCP services the port that it had stays, whatever port is
/// asked for now.
pub proof fn law_known_name_is_continued(
    state: StateModel,
    service: ServiceModel,
    node_id: NodeId,
    k: u128,
)
    requires
        registration(state, service, node_id) is Ok,
        state.services.contains_key(k),
        state.services[k].node_id == node_id,
        state.services[k].service_name == service.service_name,
        forall|j: u128| #[trigger]
            state.services.contains_key(j) && j < k && state.services[j].node_id == node_id
                ==> state.services[j].service_name != service.service_name,
    ensures
        ({
            let published = registration(state, service, node_id)->Ok_0;
            let previous = state.services[k];
            &&& published.service_id == previous.service_id
            &&& service.protocol == Protocol::Tcp && previous.protocol == Protocol::Tcp
                && previous.public_port is Some ==> published.public_port == previous.public_port
            &&& service.protocol == Protocol::Tcp && previous.protocol != Protocol::Tcp
                && service.public_port is Some ==> published.public_port == service.public_port
        }),
{
    let q = |s: ServiceModel| s.node_id == node_id && s.service_name == service.service_name;
    assert(table::is_first(state.services, q, k));
    table::lemma_first_match(state.services, q, k);
}

/// A new HTTP or HTTPS service is published by every relay that has a domain.
pub proof fn law_http_service_is_accepted(
    state: StateModel,
    service: ServiceModel,
    node_id: NodeId,
)
    requires
        service.protocol != Protocol::Tcp,
        valid_service_name(service.service_name),
        metadata_fault(service.metadata) is None,
        state.http_domain is Some,
        forall|k: u128| #[trigger]
            state.services.contains_key(k) && state.services[k].service_name
                == service.service_name ==> state.services[k].node_id == node_id,
    ensures
        registration(state, service, node_id) is Ok,
{
    let q = |s: ServiceModel| s.service_name == service.service_name && s.node_id != node_id;
    assert(!any_match(state.services, q));
}

/// A new TCP service that asks for a port of the relay's range is published if
/// no other TCP service holds that port.
pub proof fn law_tcp_service_is_accepted(
    state: StateModel,
    service: ServiceModel,
    node_id: NodeId,
    port: u16,
)
    requires
        service.protocol == Protocol::Tcp,
        service.public_port == Some(port),
        valid_service_name(service.service_name),
        metadata_fault(service.metadata) is None,
        state.tcp_port_start <= port <= state.tcp_port_end,
        forall|k: u128| #[trigger]
            state.services.contains_key(k) ==> {
                &&& state.services[k].service_name != service.service_name
                &&& state.services[k].protocol == Protocol::Tcp && state.services[k].public_port
                    == Some(port) ==> state.services[k].service_id == service.service_id
            },
    ensures
        registration(state, service, node_id) is Ok,
{
    let q = |s: ServiceModel| s.service_name == service.service_name && s.node_id != node_id;
    assert(!any_match(state.services, q));
    lemma_not_published_before(state.services, service.service_name, node_id);
    let taken = |s: ServiceModel| s.service_id != service.service_id && holds_port(s, port);
    assert(!any_match(state.services, taken));
}

/// Where a port is free there is a lowest one.
proof fn lemma_lowest_free_exists(
    services: Map<u128, ServiceModel>,
    start: u16,
    end: u16,
    free: u16,
)
    requires
        start <= free <= end,
        port_free(services, free),
    ensures
        lowest_free(services, start, end) is Some,
    decreases free,
{
    if exists|lower: u16| start <= lower < free && #[trigger] port_free(services, lower) {
        let lower = choose|lower: u16| start <= lower < free && #[trigger] port_free(services, lower);
        lemma_lowest_free_exists(services, start, end, lower);
    } else {
        assert(is_lowest_free(services, start, end, free));
    }
}

/// A new TCP service that asks for no port is published as long as a port of
/// the relay's range is free.
pub proof fn law_tcp_service_finds_a_port(
    state: StateModel,
    service: ServiceModel,
    node_id: NodeId,
    free: u16,
)
    requires
        service.protocol == Protocol::Tcp,
        service.public_port is None,
        valid_service_name(service.service_name),
        metadata_fault(service.metadata) is None,
        state.tcp_port_start <= free <= state.tcp_port_end,
        forall|k: u128| #[trigger]
            state.services.contains_key(k) ==> {
                &&& state.services[k].service_name != service.service_name
                &&& state.services[k].protocol == Protocol::Tcp ==> state.services[k].public_port
                    != Some(free)
            },
    ensures
        registration(state, service, node_id) is Ok,
{
    let q = |s: ServiceModel| s.service_name == service.service_name && s.node_id != node_id;
    assert(!any_match(state.services, q));
    lemma_not_published_before(state.services, service.service_name, node_id);
    let (start, end) = (state.tcp_port_start, state.tcp_port_end);
    assert(!any_match(state.services, |s: ServiceModel| holds_port(s, free)));
    assert(port_free(state.services, free));
    lemma_lowest_free_exists(state.services, start, end, free);
    let port = lowest_free(state.services, start, end)->0;
    assert(is_lowest_free(state.services, start, end, port));
    let held = |s: ServiceModel| holds_port(s, port);
    assert(!any_match(state.services, held));
    let taken = |s: ServiceModel| s.service_id != service.service_id && holds_port(s, port);
    assert(!any_match(state.services, taken)) by {
        if any_match(state.services, taken) {
            let k = choose|k: u128| #[trigger]
                state.services.contains_key(k) && taken(state.services[k]);
            assert(held(state.services[k]));
        }
    }
}

/// A registration is refused for a reason: an invalid name or invalid metadata,
/// a name that another node publishes, a port outside the range or held by
/// another service, no free port, or an HTTP service without a domain.
pub proof fn law_refusals_have_a_reason(
    state: StateModel,
    service: ServiceModel,
    node_id: NodeId,
    wanted: u16,
)
    ensures
        match registration(state, service, node_id) {
            Ok(_) => {
                &&& valid_service_name(service.service_name)
                &&& metadata_fault(service.metadata) is None
                &&& forall|k: u128| #[trigger]
                    state.services.contains_key(k) && state.services[k].service_name
                        == service.service_name ==> state.services[k].node_id == node_id
            },
            Err(RegisterFault::Invalid(fault)) => {
                ||| !valid_service_name(service.service_name) && fault
                    == ValidationFault::InvalidServiceName
                ||| valid_service_name(service.service_name) && metadata_fault(service.metadata)
                    == Some(fault)
            },
            Err(RegisterFault::NameInUse) => exists|k: u128| #[trigger]
                state.services.contains_key(k) && state.services[k].service_name
                    == service.service_name && state.services[k].node_id != node_id,
            Err(RegisterFault::NoPortAvailable) => {
                &&& service.protocol == Protocol::Tcp
                &&& state.tcp_port_start <= wanted <= state.tcp_port_end ==> exists|k: u128| #[trigger]
                    state.services.contains_key(k) && state.services[k].protocol == Protocol::Tcp
                        && state.services[k].public_port == Some(wanted)
            },
            Err(RegisterFault::PortOutsideRange(port)) => {
                &&& service.protocol == Protocol::Tcp
                &&& port < state.tcp_port_start || port > state.tcp_port_end
            },
            Err(RegisterFault::PortLeased(port)) => {
                &&& service.protocol == Protocol::Tcp
                &&& exists|k: u128| #[trigger]
                    state.services.contains_key(k) && state.services[k].protocol == Protocol::Tcp
                        && state.services[k].public_port == Some(port)
            },
            Err(RegisterFault::IngressNotConfigured) => {
                &&& service.protocol != Protocol::Tcp
                &&& state.http_domain is None
            },
        },
{
    let services = state.services;
    let other = |s: ServiceModel| s.service_name == service.service_name && s.node_id != node_id;
    match registration(state, service, node_id) {
        Ok(_) => {
            assert(!any_match(services, other));
            assert forall|k: u128| #[trigger]
                services.contains_key(k) && services[k].service_name
                    == service.service_name implies services[k].node_id == node_id by {
                assert(!other(services[k]));
            }
        },
        Err(RegisterFault::NameInUse) => {
            assert(any_match(services, other));
            let k = choose|k: u128| #[trigger] services.contains_key(k) && other(services[k]);
            assert(services.contains_key(k));
        },
        Err(RegisterFault::NoPortAvailable) => {
            if state.tcp_port_start <= wanted <= state.tcp_port_end {
                if port_free(services, wanted) {
                    lemma_lowest_free_exists(
                        services,
                        state.tcp_port_start,
                        state.tcp_port_end,
                        wanted,
                    );
                }
                let q = |s: ServiceModel| holds_port(s, wanted);
                assert(any_match(services, q));
                let k = choose|k: u128| #[trigger] services.contains_key(k) && q(services[k]);
                assert(services.contains_key(k) && holds_port(services[k], wanted));
            }
        },
        Err(RegisterFault::PortLeased(port)) => {
            let asked = continued(services, service, node_id);
            let q = |s: ServiceModel| s.service_id != asked.service_id && holds_port(s, port);
            assert(any_match(services, q));
            let k = choose|k: u128| #[trigger] services.contains_key(k) && q(services[k]);
            assert(services.contains_key(k) && holds_port(services[k], port));
        },
        _ => {},
    }
}

/// Entering a service changes the directory at its number and nothing else.
pub proof fn law_registration_changes_one_service(state: StateModel, service: ServiceModel, k: u128)
    ensures
        ({
            let after = with_service(state, service);
            &&& after.services.contains_key(service.service_id.0)
            &&& after.services[service.service_id.0] == service
            &&& k != service.service_id.0 ==> {
                &&& after.services.contains_key(k) == state.services.contains_key(k)
                &&& state.services.contains_key(k) ==> after.services[k] == state.services[k]
            }
            &&& after.tokens == state.tokens
            &&& after.nodes == state.nodes
            &&& after.sessions == state.sessions
            &&& after.tcp_ingress == state.tcp_ingress
            &&& after.public_host == state.public_host
            &&& after.http_domain == state.http_domain
            &&& after.tcp_port_start == state.tcp_port_start
            &&& after.tcp_port_end == state.tcp_port_end
        }),
{
}

/// A service that is listened for, or that needs no port, stays published.
pub proof fn law_reachable_service_stays(state: StateModel, service: ServiceModel, listening: bool)
    ensures
        service.protocol != Protocol::Tcp ==> after_listening(state, service, listening) == state,
        after_listening(state, service, true) == state,
        service.protocol == Protocol::Tcp ==> !after_listening(
            state,
            service,
            false,
        ).services.contains_key(service.service_id.0),
{
}

/// A visitor is led to the session of the node that publishes the service, and
/// only there; without such a session the service is not reached.
pub proof fn law_visitors_reach_the_publisher(state: StateModel, id: ServiceId, session: ActiveSession)
    ensures
        route(state, id) == Ok::<_, RouteError>(session) <==> {
            &&& state.services.contains_key(id.0)
            &&& state.sessions.contains_key(state.services[id.0].node_id.0)
            &&& state.sessions[state.services[id.0].node_id.0] == session
        },
        route(state, id) == Err::<ActiveSession, _>(RouteError::NotRegistered)
            <==> !state.services.contains_key(id.0),
        route(state, id) == Err::<ActiveSession, _>(RouteError::NodeOffline) <==> {
            &&& state.services.contains_key(id.0)
            &&& !state.sessions.contains_key(state.services[id.0].node_id.0)
        },
{
}

/// What is found at a host name is published there for that protocol, and has
/// the lowest number of all that are; nothing is found only where nothing is
/// published.
pub proof fn law_host_lookup(
    services: Map<u128, ServiceModel>,
    protocol: Protocol,
    host: Seq<char>,
    k: u128,
)
    ensures
        match service_at_host(services, protocol, host) {
            Some(id) => {
                &&& services.contains_key(id)
                &&& services[id].protocol == protocol
                &&& services[id].public_host == Some(host)
                &&& services.contains_key(k) && services[k].protocol == protocol
                    && services[k].public_host == Some(host) ==> id <= k
            },
            None => services.contains_key(k) && services[k].protocol == protocol
                ==> services[k].public_host != Some(host),
        },
{
    let q = |s: ServiceModel| s.protocol == protocol && s.public_host == Some(host);
    match service_at_host(services, protocol, host) {
        Some(id) => {
            assert(table::is_first(services, q, id));
            if services.contains_key(k) && k < id {
                assert(!q(services[k]));
            }
        },
        None => {
            if services.contains_key(k) && q(services[k]) {
                table::lemma_first_match_exists(services, q, k);
            }
        },
    }
}

} // verus!
