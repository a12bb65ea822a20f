//! The state of the relay: tokens, directory, nodes and sessions.

use std::collections::{BTreeMap, BTreeSet};
use vstd::prelude::*;
use crate::ids::{NodeId, TunnelId};
use crate::model::{
    key_bytes, text_view, NodeModel, NodeRecord, NodeStatus, ServiceDefinition, ServiceModel,
    TokenKind,
};
use crate::table;
use crate::token::{same_bytes, TokenModel, TokenState};

verus! {

/// The session that a node holds. `connection` names its transport connection
/// to the code that owns the sockets.
#[derive(Clone, Copy, Debug, PartialEq, Eq, Structural)]
pub struct ActiveSession {
    pub id: TunnelId,
    pub token_kind: TokenKind,
    pub connection: u64,
}

/// The state of the relay. Services, nodes and sessions are kept by the number
/// of their service or node; `tcp_ingress` holds the services whose public
/// port is being listened on.
pub struct AppState {
    pub tokens: TokenState,
    pub services: BTreeMap<u128, ServiceDefinition>,
    pub nodes: BTreeMap<u128, NodeRecord>,
    pub sessions: BTreeMap<u128, ActiveSession>,
    pub tcp_ingress: BTreeSet<u128>,
    pub public_host: String,
    pub http_domain: Option<String>,
    pub tcp_port_start: u16,
    pub tcp_port_end: u16,
}

/// `AppState` in mathematical terms.
#[verifier::ext_equal]
pub struct StateModel {
    pub tokens: TokenModel,
    pub services: Map<u128, ServiceModel>,
    pub nodes: Map<u128, NodeModel>,
    pub sessions: Map<u128, ActiveSession>,
    pub tcp_ingress: Set<u128>,
    pub public_host: Seq<char>,
    pub http_domain: Option<Seq<char>>,
    pub tcp_port_start: u16,
    pub tcp_port_end: u16,
}

impl View for AppState {
    type V = StateModel;

    open spec fn view(&self) -> StateModel {
        StateModel {
            tokens: self.tokens@,
            services: self.services@.map_values(|s: ServiceDefinition| s@),
            nodes: self.nodes@.map_values(|n: NodeRecord| n@),
            sessions: self.sessions@,
            tcp_ingress: self.tcp_ingress@,
            public_host: self.public_host@,
            http_domain: text_view(self.http_domain),
            tcp_port_start: self.tcp_port_start,
            tcp_port_end: self.tcp_port_end,
        }
    }
}

impl AppState {
    /// A relay that nothing is connected to.
    pub fn new(
        tokens: TokenState,
        services: BTreeMap<u128, ServiceDefinition>,
        nodes: BTreeMap<u128, NodeRecord>,
        public_host: String,
        http_domain: Option<String>,
        tcp_port_start: u16,
        tcp_port_end: u16,
    ) -> (r: Self)
        ensures
            r@ == (StateModel {
                tokens: tokens@,
                services: services@.map_values(|s: ServiceDefinition| s@),
                nodes: nodes@.map_values(|n: NodeRecord| n@),
                sessions: Map::empty(),
                tcp_ingress: Set::empty(),
                public_host: public_host@,
                http_domain: text_view(http_domain),
                tcp_port_start,
                tcp_port_end,
            }),
    {
        AppState {
            tokens,
            services,
            nodes,
            sessions: BTreeMap::new(),
            tcp_ingress: BTreeSet::new(),
            public_host,
            http_domain,
            tcp_port_start,
            tcp_port_end,
        }
    }

    /// The service at `id`.
    pub fn service(&self, id: u128) -> (r: Option<&ServiceDefinition>)
        ensures
            match r {
                Some(service) => self@.services.contains_key(id) && service@ == self@.services[id],
                None => !self@.services.contains_key(id),
            },
    {
        table::find(&self.services, id)
    }

    /// The node at `id`.
    pub fn node(&self, id: u128) -> (r: Option<&NodeRecord>)
        ensures
            match r {
                Some(node) => self@.nodes.contains_key(id) && node@ == self@.nodes[id],
                None => !self@.nodes.contains_key(id),
            },
    {
        table::find(&self.nodes, id)
    }

    /// Sets the service at `id`.
    pub fn set_service(&mut self, id: u128, service: ServiceDefinition)
        ensures
            final(self)@ == (StateModel {
                services: old(self)@.services.insert(id, service@),
                ..old(self)@
            }),
    {
        table::put(&mut self.services, id, service);
        assert(self@ =~= StateModel {
            services: old(self)@.services.insert(id, service@),
            ..old(self)@
        });
    }

    /// Removes the service at `id`; whether there was one.
    pub fn remove_service(&mut self, id: u128) -> (r: bool)
        ensures
            r == old(self)@.services.contains_key(id),
            final(self)@ == (StateModel {
                services: old(self)@.services.remove(id),
                ..old(self)@
            }),
    {
        let removed = table::take(&mut self.services, id);
        assert(self@ =~= StateModel { services: old(self)@.services.remove(id), ..old(self)@ });
        removed.is_some()
    }

    /// Sets the node at `id`.
    pub fn set_node(&mut self, id: u128, node: NodeRecord)
        ensures
            final(self)@ == (StateModel {
                nodes: old(self)@.nodes.insert(id, node@),
                ..old(self)@
            }),
    {
        table::put(&mut self.nodes, id, node);
        assert(self@ =~= StateModel { nodes: old(self)@.nodes.insert(id, node@), ..old(self)@ });
    }
}

/// Whether a node may come back under this key: one that is not known yet, one
/// whose key is known to be the same, and one that was recorded without a key.
pub open spec fn identity_accepted(
    nodes: Map<u128, NodeModel>,
    node_id: NodeId,
    public_key: Seq<u8>,
) -> bool {
    nodes.contains_key(node_id.0) ==> match nodes[node_id.0].public_key {
        Some(known) => known == public_key,
        None => true,
    }
}

/// A node came back under another key than it is known by.
#[derive(Clone, Copy, Debug, PartialEq, Eq, Structural)]
pub struct IdentityMismatch;

impl IdentityMismatch {
    /// The error as a text for people.
    pub fn message(&self) -> (r: String)
        ensures
            r@ == "node public key does not match persisted identity"@,
    {
        "node public key does not match persisted identity".to_owned()
    }
}

/// Rejects an impostor, while records from before nodes had keys are allowed.
pub fn validate_node_identity(
    node_id: NodeId,
    public_key: &[u8; 32],
    state: &AppState,
) -> (r: Result<(), IdentityMismatch>)
    ensures
        r is Ok <==> identity_accepted(state@.nodes, node_id, public_key@),
{
    if let Some(existing) = state.node(node_id.0) {
        if let Some(known) = &existing.public_key {
            if !same_bytes(known, public_key) {
                return Err(IdentityMismatch);
            }
        }
    }
    Ok(())
}

/// Gives a node its session and hands back the connection of the session that
/// it held before, which is to be closed.
pub fn activate_session(
    node_id: NodeId,
    session_id: TunnelId,
    token_kind: TokenKind,
    connection: u64,
    state: &mut AppState,
) -> (r: Option<u64>)
    ensures
        ({
            let session = ActiveSession { id: session_id, token_kind, connection };
            final(state)@ == StateModel {
                sessions: old(state)@.sessions.insert(node_id.0, session),
                ..old(state)@
            }
        }),
        r == (if old(state)@.sessions.contains_key(node_id.0) {
            Some(old(state)@.sessions[node_id.0].connection)
        } else {
            None
        }),
{
    let session = ActiveSession { id: session_id, token_kind, connection };
    let replaced = table::put(&mut state.sessions, node_id.0, session);
    match replaced {
        Some(previous) => Some(previous.connection),
        None => None,
    }
}

/// A node that has gone offline.
pub open spec fn gone_offline(node: NodeModel) -> NodeModel {
    NodeModel { status: NodeStatus::Offline, ..node }
}

/// Marks a node as offline and hands back its record, which is to be stored.
pub fn mark_offline(state: &mut AppState, node_id: u128) -> (r: Option<NodeRecord>)
    ensures
        match r {
            Some(node) => {
                &&& old(state)@.nodes.contains_key(node_id)
                &&& node@ == gone_offline(old(state)@.nodes[node_id])
                &&& final(state)@ == StateModel {
                    nodes: old(state)@.nodes.insert(node_id, node@),
                    ..old(state)@
                }
            },
            None => !old(state)@.nodes.contains_key(node_id) && final(state)@ == old(state)@,
        },
{
    let updated = match state.node(node_id) {
        Some(node) => {
            let mut node = node.clone();
            node.status = NodeStatus::Offline;
            node
        },
        None => return None,
    };
    state.set_node(node_id, updated.clone());
    Some(updated)
}

/// The state after the session `session_id` of a node has ended. Where the
/// node has meanwhile got another session nothing changes.
pub open spec fn after_session(state: StateModel, node_id: NodeId, session_id: TunnelId) -> StateModel {
    let id = node_id.0;
    if state.sessions.contains_key(id) && state.sessions[id].id == session_id {
        StateModel {
            sessions: state.sessions.remove(id),
            nodes: if state.nodes.contains_key(id) {
                state.nodes.insert(id, gone_offline(state.nodes[id]))
            } else {
                state.nodes
            },
            ..state
        }
    } else {
        state
    }
}

/// Ends a session: unless the node has another one by now it goes offline, and
/// its record, if there is one, is handed back to be stored.
pub fn end_session(
    node_id: NodeId,
    session_id: TunnelId,
    state: &mut AppState,
) -> (r: Option<NodeRecord>)
    ensures
        final(state)@ == after_session(old(state)@, node_id, session_id),
        match r {
            Some(node) => {
                &&& old(state)@.sessions.contains_key(node_id.0)
                &&& old(state)@.sessions[node_id.0].id == session_id
                &&& old(state)@.nodes.contains_key(node_id.0)
                &&& node@ == final(state)@.nodes[node_id.0]
            },
            None => final(state)@.nodes == old(state)@.nodes && !(old(
                state,
            )@.sessions.contains_key(node_id.0) && old(state)@.sessions[node_id.0].id == session_id
                && old(state)@.nodes.contains_key(node_id.0)),
        },
{
    let active = match table::find(&state.sessions, node_id.0) {
        Some(current) => current.id == session_id,
        None => false,
    };
    if !active {
        return None;
    }
    table::take(&mut state.sessions, node_id.0);
    mark_offline(state, node_id.0)
}

/// The nodes whose session was opened with a token of this kind.
pub open spec fn admitted_by(state: StateModel, kind: TokenKind) -> Set<u128> {
    Set::new(|k: u128| state.sessions.contains_key(k) && state.sessions[k].token_kind == kind)
}

/// The state after the sessions of these nodes were cut off.
pub open spec fn cut_off(state: StateModel, gone: Set<u128>) -> StateModel {
    StateModel {
        sessions: state.sessions.remove_keys(gone),
        nodes: state.nodes.map_entries(
            |k: u128, node: NodeModel|
                if gone.contains(k) {
                    gone_offline(node)
                } else {
                    node
                },
        ),
        ..state
    }
}

/// A session that was cut off: the connection to close, and the node's record
/// to store, if there is one.
#[derive(Debug)]
pub struct Disconnected {
    pub node_id: NodeId,
    pub connection: u64,
    pub node: Option<NodeRecord>,
}

/// Whether `cut` says of the node `k` what is to be done for its session.
pub open spec fn tells_of(cut: Disconnected, state: StateModel, k: u128) -> bool {
    &&& cut.node_id == NodeId(k)
    &&& state.sessions.contains_key(k)
    &&& cut.connection == state.sessions[k].connection
    &&& match cut.node {
        Some(node) => state.nodes.contains_key(k) && node@ == gone_offline(state.nodes[k]),
        None => !state.nodes.contains_key(k),
    }
}

/// The state after the token of `kind` was replaced or revoked: every session
/// that a token of this kind opened is cut off.
pub open spec fn after_replacement(
    state: StateModel,
    kind: TokenKind,
    hash: Option<Seq<u8>>,
) -> StateModel {
    cut_off(
        StateModel { tokens: state.tokens.replaced(kind, hash), ..state },
        admitted_by(state, kind),
    )
}

/// Whether `told` tells of each session that a token of this kind opened, once
/// and in the order of their nodes.
pub open spec fn tells_of_admitted(
    told: Seq<Disconnected>,
    state: StateModel,
    kind: TokenKind,
) -> bool {
    exists|gone: Seq<u128>|
        {
            &&& #[trigger] table::increasing(gone)
            &&& forall|k: u128| #[trigger]
                gone.contains(k) <==> admitted_by(state, kind).contains(k)
            &&& told.len() == gone.len()
            &&& forall|i: int| 0 <= i < told.len() ==> tells_of(#[trigger] told[i], state, gone[i])
        }
}

/// Replaces the token of `kind`, or revokes it, and cuts off every session that
/// a token of this kind opened. What is handed back tells of each of these
/// sessions once, in the order of their nodes.
pub fn replace_token(
    state: &mut AppState,
    kind: TokenKind,
    hash: Option<[u8; 32]>,
) -> (r: Vec<Disconnected>)
    ensures
        final(state)@ == after_replacement(old(state)@, kind, key_bytes(hash)),
        tells_of_admitted(r@, old(state)@, kind),
{
    let ghost before = state@;
    let ghost admitted = admitted_by(before, kind);
    state.tokens.set(kind, hash);
    let ghost start = state@;
    let keys = table::keys_of(&state.sessions);
    let mut out: Vec<Disconnected> = Vec::new();
    let ghost mut gone: Seq<u128> = seq![];
    let mut i: usize = 0;
    proof {
        assert(start.sessions.remove_keys(gone.to_set()) =~= start.sessions);
        assert(cut_off(start, gone.to_set()).nodes =~= start.nodes);
        assert(cut_off(start, gone.to_set()) =~= start);
    }
    while i < keys.len()
        invariant
            i <= keys@.len(),
            before == old(state)@,
            start == (StateModel { tokens: before.tokens.replaced(kind, key_bytes(hash)), ..before }),
            admitted == admitted_by(before, kind),
            table::lists_keys(keys@, before.sessions),
            state@ == cut_off(start, gone.to_set()),
            table::increasing(gone),
            out@.len() == gone.len(),
            forall|j: int| 0 <= j < gone.len() ==> i > 0 && #[trigger] gone[j] <= keys@[i - 1],
            forall|k: u128| #[trigger]
                gone.contains(k) <==> keys@.take(i as int).contains(k) && admitted.contains(k),
            forall|j: int| 0 <= j < out@.len() ==> tells_of(#[trigger] out@[j], before, gone[j]),
        decreases keys@.len() - i,
    {
        let k: u128 = keys[i];
        assert(keys@.contains(k));
        let ghost cut = gone;
        assert(keys@.take(i + 1) =~= keys@.take(i as int).push(k));
        assert forall|j: int| 0 <= j < cut.len() implies #[trigger] cut[j] < k by {
            assert(i > 0 && gone[j] <= keys@[i - 1]);
            assert(keys@[i - 1] < keys@[i as int]);
        }
        assert(!cut.contains(k));
        let wanted = match table::find(&state.sessions, k) {
            Some(session) => session.token_kind == kind,
            None => false,
        };
        assert(wanted == admitted.contains(k));
        if wanted {
            if let Some(session) = table::take(&mut state.sessions, k) {
                let node = mark_offline(state, k);
                out.push(Disconnected { node_id: NodeId(k), connection: session.connection, node });
                proof {
                    gone = cut.push(k);
                    assert(gone[cut.len() as int] == k);
                    assert forall|x: u128| gone.contains(x) <==> cut.contains(x) || x == k by {
                        if cut.contains(x) {
                            let j = choose|j: int| 0 <= j < cut.len() && cut[j] == x;
                            assert(gone[j] == x);
                        }
                    }
                    assert(gone.to_set() =~= cut.to_set().insert(k));
                    assert(state@.sessions =~= start.sessions.remove_keys(gone.to_set()));
                    assert(state@.nodes =~= cut_off(start, gone.to_set()).nodes);
                }
            }
        }
        proof {
            assert forall|x: u128| #[trigger]
                keys@.take(i + 1).contains(x) <==> keys@.take(i as int).contains(x) || x == k by {
                if keys@.take(i as int).contains(x) {
                    let j = choose|j: int| 0 <= j < i && keys@.take(i as int)[j] == x;
                    assert(keys@.take(i + 1)[j] == x);
                }
                assert(keys@.take(i + 1)[i as int] == k);
            }
        }
        i += 1;
    }
    proof {
        assert(keys@.take(i as int) =~= keys@);
        assert forall|k: u128| #[trigger] gone.contains(k) <==> admitted.contains(k) by {
            assert(before.sessions.contains_key(k) <==> keys@.contains(k));
        }
        assert(gone.to_set() =~= admitted);
    }
    out
}

/// After a token is replaced or revoked no session that it opened is left, and
/// the nodes of those sessions are offline.
pub proof fn law_replacement_cuts_off(
    state: StateModel,
    kind: TokenKind,
    hash: Option<Seq<u8>>,
    k: u128,
)
    ensures
        ({
            let after = after_replacement(state, kind, hash);
            &&& after.sessions.contains_key(k) ==> after.sessions[k].token_kind != kind
            &&& state.sessions.contains_key(k) && state.sessions[k].token_kind == kind
                && state.nodes.contains_key(k) ==> after.nodes.contains_key(k)
                && after.nodes[k].status == NodeStatus::Offline
        }),
{
}

/// Replacing a token leaves alone the sessions of the other kind, their nodes
/// and the directory.
pub proof fn law_replacement_spares_others(
    state: StateModel,
    kind: TokenKind,
    hash: Option<Seq<u8>>,
    k: u128,
)
    requires
        !admitted_by(state, kind).contains(k),
    ensures
        ({
            let after = after_replacement(state, kind, hash);
            &&& after.sessions.contains_key(k) == state.sessions.contains_key(k)
            &&& state.sessions.contains_key(k) ==> after.sessions[k] == state.sessions[k]
            &&& after.nodes.contains_key(k) == state.nodes.contains_key(k)
            &&& state.nodes.contains_key(k) ==> after.nodes[k] == state.nodes[k]
            &&& after.services == state.services
        }),
{
}

/// Whether every node that holds a session is known and online.
pub open spec fn sessions_online(state: StateModel) -> bool {
    forall|k: u128| #[trigger]
        state.sessions.contains_key(k) ==> state.nodes.contains_key(k) && state.nodes[k].status
            == NodeStatus::Online
}

/// When a session ends, or a token is replaced or revoked, every node that still
/// holds a session is known and online as before.
pub proof fn law_ends_keep_sessions_online(
    state: StateModel,
    node_id: NodeId,
    session_id: TunnelId,
    kind: TokenKind,
    hash: Option<Seq<u8>>,
)
    requires
        sessions_online(state),
    ensures
        sessions_online(after_session(state, node_id, session_id)),
        sessions_online(after_replacement(state, kind, hash)),
{
    let ended = after_session(state, node_id, session_id);
    assert forall|k: u128| #[trigger] ended.sessions.contains_key(k) implies ended.nodes.contains_key(
        k,
    ) && ended.nodes[k].status == NodeStatus::Online by {
        assert(state.sessions.contains_key(k));
    }
    let replaced = after_replacement(state, kind, hash);
    assert forall|k: u128| #[trigger]
        replaced.sessions.contains_key(k) implies replaced.nodes.contains_key(k)
        && replaced.nodes[k].status == NodeStatus::Online by {
        assert(state.sessions.contains_key(k));
    }
}

/// A node may come back under the key by which it is known and under no other;
/// a node that is not known, or is known without a key, may come under any.
pub proof fn law_known_key_is_required(
    nodes: Map<u128, NodeModel>,
    node_id: NodeId,
    public_key: Seq<u8>,
)
    ensures
        identity_accepted(nodes, node_id, public_key) <==> {
            ||| !nodes.contains_key(node_id.0)
            ||| nodes[node_id.0].public_key is None
            ||| nodes[node_id.0].public_key == Some(public_key)
        },
{
}

/// The end of a session takes its node offline and leaves the rest of its
/// record, all other nodes and sessions, the directory and the tokens as they
/// are. The end of a session that the node no longer holds changes nothing.
pub proof fn law_session_end_takes_its_node_offline(
    state: StateModel,
    node_id: NodeId,
    session_id: TunnelId,
    k: u128,
)
    ensures
        ({
            let after = after_session(state, node_id, session_id);
            let id = node_id.0;
            let held = state.sessions.contains_key(id) && state.sessions[id].id == session_id;
            &&& !held ==> after == state
            &&& held ==> !after.sessions.contains_key(id)
            &&& held && state.nodes.contains_key(id) ==> {
                &&& after.nodes[id].status == NodeStatus::Offline
                &&& after.nodes[id] == NodeModel {
                    status: after.nodes[id].status,
                    ..state.nodes[id]
                }
            }
            &&& after.nodes.contains_key(k) == state.nodes.contains_key(k)
            &&& k != id ==> {
                &&& state.nodes.contains_key(k) ==> after.nodes[k] == state.nodes[k]
                &&& after.sessions.contains_key(k) == state.sessions.contains_key(k)
                &&& state.sessions.contains_key(k) ==> after.sessions[k] == state.sessions[k]
            }
            &&& after.services == state.services
            &&& after.tokens == state.tokens
            &&& after.tcp_ingress == state.tcp_ingress
            &&& after.public_host == state.public_host
            &&& after.http_domain == state.http_domain
            &&& after.tcp_port_start == state.tcp_port_start
            &&& after.tcp_port_end == state.tcp_port_end
        }),
{
}

/// Replacing or revoking a token ends exactly the sessions that tokens of its
/// kind opened and takes their nodes offline; of these nodes nothing else
/// changes, and of everything else only the hash of this kind.
pub proof fn law_replacement_is_exact(
    state: StateModel,
    kind: TokenKind,
    hash: Option<Seq<u8>>,
    k: u128,
)
    ensures
        ({
            let after = after_replacement(state, kind, hash);
            let cut = state.sessions.contains_key(k) && state.sessions[k].token_kind == kind;
            &&& after.sessions.contains_key(k) <==> state.sessions.contains_key(k) && !cut
            &&& after.sessions.contains_key(k) ==> after.sessions[k] == state.sessions[k]
            &&& after.nodes.contains_key(k) == state.nodes.contains_key(k)
            &&& state.nodes.contains_key(k) && cut ==> {
                &&& after.nodes[k].status == NodeStatus::Offline
                &&& after.nodes[k] == NodeModel { status: after.nodes[k].status, ..state.nodes[k] }
            }
            &&& state.nodes.contains_key(k) && !cut ==> after.nodes[k] == state.nodes[k]
            &&& kind == TokenKind::Admin ==> after.tokens.admin_hash == hash
                && after.tokens.user_hash == state.tokens.user_hash
            &&& kind == TokenKind::User ==> after.tokens.user_hash == hash
                && after.tokens.admin_hash == state.tokens.admin_hash
            &&& after.services == state.services
            &&& after.tcp_ingress == state.tcp_ingress
            &&& after.public_host == state.public_host
            &&& after.http_domain == state.http_domain
            &&& after.tcp_port_start == state.tcp_port_start
            &&& after.tcp_port_end == state.tcp_port_end
        }),
{
}

/// What is told of the sessions that were cut off names each connection once:
/// every one that a token of this kind opened, and no other.
pub proof fn law_cut_connections_are_told(
    told: Seq<Disconnected>,
    state: StateModel,
    kind: TokenKind,
    k: u128,
)
    requires
        tells_of_admitted(told, state, kind),
    ensures
        state.sessions.contains_key(k) && state.sessions[k].token_kind == kind ==> exists|i: int|
            0 <= i < told.len() && (#[trigger] told[i]).node_id == NodeId(k) && told[i].connection
                == state.sessions[k].connection,
        forall|i: int|
            0 <= i < told.len() ==> {
                let node = (#[trigger] told[i]).node_id.0;
                &&& state.sessions.contains_key(node)
                &&& state.sessions[node].token_kind == kind
                &&& told[i].connection == state.sessions[node].connection
                &&& told[i].node is Some <==> state.nodes.contains_key(node)
                &&& told[i].node matches Some(record) ==> record@ == NodeModel {
                    status: NodeStatus::Offline,
                    ..state.nodes[node]
                }
            },
        forall|i: int, j: int|
            0 <= i < j < told.len() ==> (#[trigger] told[i]).node_id != (#[trigger] told[j]).node_id,
{
    let gone = choose|gone: Seq<u128>|
        {
            &&& #[trigger] table::increasing(gone)
            &&& forall|k: u128| #[trigger]
                gone.contains(k) <==> admitted_by(state, kind).contains(k)
            &&& told.len() == gone.len()
            &&& forall|i: int| 0 <= i < told.len() ==> tells_of(#[trigger] told[i], state, gone[i])
        };
    if state.sessions.contains_key(k) && state.sessions[k].token_kind == kind {
        assert(admitted_by(state, kind).contains(k));
        assert(gone.contains(k));
        let i = choose|i: int| 0 <= i < gone.len() && gone[i] == k;
        assert(tells_of(told[i], state, gone[i]));
    }
    assert forall|i: int| 0 <= i < told.len() implies {
        let node = (#[trigger] told[i]).node_id.0;
        &&& state.sessions.contains_key(node)
        &&& state.sessions[node].token_kind == kind
        &&& told[i].connection == state.sessions[node].connection
        &&& told[i].node is Some <==> state.nodes.contains_key(node)
        &&& told[i].node matches Some(record) ==> record@ == NodeModel {
            status: NodeStatus::Offline,
            ..state.nodes[node]
        }
    } by {
        assert(tells_of(told[i], state, gone[i]));
        assert(gone.contains(gone[i]));
    }
    assert forall|i: int, j: int| 0 <= i < j < told.len() implies (#[trigger] told[i]).node_id != (
    #[trigger] told[j]).node_id by {
        assert(tells_of(told[i], state, gone[i]));
        assert(tells_of(told[j], state, gone[j]));
        assert(gone[i] < gone[j]);
    }
}

/// The model of a relay shows all that it holds.
pub proof fn law_state_is_shown(state: AppState, k: u128)
    ensures
        state@.tokens == state.tokens@,
        state@.services.contains_key(k) == state.services@.contains_key(k),
        state.services@.contains_key(k) ==> state@.services[k] == state.services@[k]@,
        state@.nodes.contains_key(k) == state.nodes@.contains_key(k),
        state.nodes@.contains_key(k) ==> state@.nodes[k] == state.nodes@[k]@,
        state@.sessions == state.sessions@,
        state@.tcp_ingress == state.tcp_ingress@,
        state@.public_host == state.public_host@,
        state@.http_domain is Some <==> state.http_domain is Some,
        state.http_domain matches Some(domain) ==> state@.http_domain == Some(domain@),
        state@.tcp_port_start == state.tcp_port_start,
        state@.tcp_port_end == state.tcp_port_end,
{
}

} // verus!
