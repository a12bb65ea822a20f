//! The identity of a node: its identifier and its key.

use vstd::prelude::*;
use crate::ids::{is_version_7, NodeId};
use crate::model::{NodeMetadata, NodeMetadataModel};
use crate::metadata::Metadata;

verus! {

/// What a node keeps of its identity. A key of zeros stands for no key.
#[derive(Clone, Copy, Debug)]
pub struct NodeState {
    pub node_id: NodeId,
    pub private_key: [u8; 32],
}

/// Whether all bytes are zero.
pub open spec fn all_zero(key: Seq<u8>) -> bool {
    forall|i: int| 0 <= i < key.len() ==> #[trigger] key[i] == 0
}

fn is_all_zero(key: &[u8; 32]) -> (r: bool)
    ensures
        r == all_zero(key@),
{
    let mut i: usize = 0;
    while i < 32
        invariant
            i <= 32,
            forall|j: int| 0 <= j < i ==> #[trigger] key@[j] == 0,
        decreases 32 - i,
    {
        if key[i] != 0 {
            assert(key@[i as int] != 0);
            return false;
        }
        i += 1;
    }
    true
}

/// `rand::random` draws a byte from the generator of the thread, which the
/// operating system seeds; 32 of them make a key. Nothing is claimed of them.
#[verifier::external_body]
fn random_private_key() -> [u8; 32] {
    std::array::from_fn(|_| rand::random())
}

/// The identity of a node at start-up: the one that was found, with a new key
/// if it has none, or else a new one.
pub open spec fn settled(
    found: Option<NodeState>,
    fresh_id: NodeId,
    fresh_key: [u8; 32],
) -> NodeState {
    match found {
        Some(state) => if all_zero(state.private_key@) {
            NodeState { node_id: state.node_id, private_key: fresh_key }
        } else {
            state
        },
        None => NodeState { node_id: fresh_id, private_key: fresh_key },
    }
}

/// Whether an identity that was found has to be written.
pub open spec fn needs_writing(found: Option<NodeState>) -> bool {
    match found {
        Some(state) => all_zero(state.private_key@),
        None => true,
    }
}

/// The identity of a node at start-up, given a new identifier and a new key for
/// the case that they are needed; and whether it has to be written.
pub fn settle_state(found: Option<NodeState>, fresh_id: NodeId, fresh_key: [u8; 32]) -> (r: (
    NodeState,
    bool,
))
    ensures
        r.0 == settled(found, fresh_id, fresh_key),
        r.1 == needs_writing(found),
{
    match found {
        Some(state) => if is_all_zero(&state.private_key) {
            (NodeState { node_id: state.node_id, private_key: fresh_key }, true)
        } else {
            (state, false)
        },
        None => (NodeState { node_id: fresh_id, private_key: fresh_key }, true),
    }
}

/// The identity of a node at start-up, and whether it has to be written.
pub fn load_or_create_state(found: Option<NodeState>) -> (r: (NodeState, bool))
    ensures
        exists|fresh_id: NodeId, fresh_key: [u8; 32]|
            is_version_7(fresh_id.0) && r.0 == #[trigger] settled(found, fresh_id, fresh_key),
        r.1 == needs_writing(found),
{
    let fresh_id = NodeId::new();
    let fresh_key = random_private_key();
    let made = settle_state(found, fresh_id, fresh_key);
    assert(made.0 == settled(found, fresh_id, fresh_key));
    made
}

/// An identity is stable: what was written at one start-up is used unchanged at
/// the next, provided that the new key is not all zeros; and a node that had
/// no key keeps its identifier.
pub proof fn law_identity_is_stable(
    found: Option<NodeState>,
    fresh_id: NodeId,
    fresh_key: [u8; 32],
    later_id: NodeId,
    later_key: [u8; 32],
)
    requires
        !all_zero(fresh_key@),
    ensures
        ({
            let first = settled(found, fresh_id, fresh_key);
            &&& settled(Some(first), later_id, later_key) == first
            &&& !needs_writing(Some(first))
            &&& found matches Some(state) ==> first.node_id == state.node_id
        }),
{
}

/// The Ed25519 public key of a private key, as `ed25519_dalek::SigningKey`
/// derives it.
pub uninterp spec fn ed25519_public_key(private_key: Seq<u8>) -> Seq<u8>;

/// `ed25519_dalek::SigningKey::verifying_key` derives the public key of a
/// private key. What is claimed: it is a function of the private key.
#[verifier::external_body]
fn derive_public_key(private_key: &[u8; 32]) -> (r: [u8; 32])
    ensures
        r@ == ed25519_public_key(private_key@),
{
    ed25519_dalek::SigningKey::from_bytes(private_key).verifying_key().to_bytes()
}

/// The public key of a node.
pub fn node_public_key(state: &NodeState) -> (r: [u8; 32])
    ensures
        r@ == ed25519_public_key(state.private_key@),
{
    derive_public_key(&state.private_key)
}

/// What a node reports of itself; without a host name it is `unknown`.
pub fn local_node_metadata(
    hostname: Option<String>,
    os: &str,
    arch: &str,
    client_version: &str,
) -> (r: NodeMetadata)
    ensures
        r@ == (NodeMetadataModel {
            hostname: match hostname {
                Some(name) => name@,
                None => "unknown"@,
            },
            os: os@,
            arch: arch@,
            client_version: client_version@,
            metadata: Seq::empty(),
        }),
{
    NodeMetadata {
        hostname: match hostname {
            Some(name) => name,
            None => "unknown".to_owned(),
        },
        os: os.to_owned(),
        arch: arch.to_owned(),
        client_version: client_version.to_owned(),
        metadata: Metadata::default(),
    }
}

/// The time in milliseconds since 1970 out of the time that the clock says has
/// passed since then; a clock that is set before 1970 gives zero.
pub fn unix_ms(elapsed_ms: Option<u128>) -> (r: i64)
    ensures
        r == match elapsed_ms {
            Some(ms) => ms as i64,
            None => 0,
        },
{
    match elapsed_ms {
        Some(ms) => ms as i64,
        None => 0,
    }
}

/// A node that has a key keeps its identity, which is not written again; one
/// without a key gets a new key and keeps its identifier; one that is new gets
/// both.
pub proof fn law_known_identity_is_kept(state: NodeState, fresh_id: NodeId, fresh_key: [u8; 32])
    ensures
        (exists|i: int| 0 <= i < 32 && #[trigger] state.private_key@[i] != 0) ==> settled(
            Some(state),
            fresh_id,
            fresh_key,
        ) == state && !needs_writing(Some(state)),
        (forall|i: int| 0 <= i < 32 ==> #[trigger] state.private_key@[i] == 0) ==> {
            &&& settled(Some(state), fresh_id, fresh_key).node_id == state.node_id
            &&& settled(Some(state), fresh_id, fresh_key).private_key == fresh_key
            &&& needs_writing(Some(state))
        },
        settled(None, fresh_id, fresh_key).node_id == fresh_id,
        settled(None, fresh_id, fresh_key).private_key == fresh_key,
        needs_writing(None),
{
}

} // verus!
