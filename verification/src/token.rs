//! Long-lived access tokens. The relay keeps their hashes, never the tokens.

use rand::RngExt;
use vstd::prelude::*;
use vstd::utf8::encode_utf8;
use crate::model::{key_bytes, TokenKind};
use crate::text::{hex_encode, hex_text, joined, law_hex_texts_differ};

verus! {

/// Whether two 32-byte values are equal.
pub fn same_bytes(a: &[u8; 32], b: &[u8; 32]) -> (r: bool)
    ensures
        r == (a@ == b@),
{
    let mut i: usize = 0;
    while i < 32
        invariant
            i <= 32,
            forall|j: int| 0 <= j < i ==> a@[j] == b@[j],
        decreases 32 - i,
    {
        if a[i] != b[i] {
            return false;
        }
        i += 1;
    }
    assert(a@ =~= b@);
    true
}

/// The BLAKE3 digest of `data`, as `blake3::hash` computes it.
pub uninterp spec fn blake3_digest(data: Seq<u8>) -> Seq<u8>;

/// `blake3::hash` digests bytes. What is claimed: the digest is a function of
/// the bytes.
#[verifier::external_body]
fn blake3_hash(data: &[u8]) -> (r: [u8; 32])
    ensures
        r@ == blake3_digest(data@),
{
    *blake3::hash(data).as_bytes()
}

/// `rand::rng` with `rand::RngExt::fill` draws 32 bytes from the generator of
/// the thread, which the operating system seeds. Nothing is claimed of them.
#[verifier::external_body]
fn random_bytes() -> [u8; 32] {
    let mut raw = [0u8; 32];
    rand::rng().fill(&mut raw);
    raw
}

/// What a token with the text `token` is kept as.
pub open spec fn token_hash(token: Seq<char>) -> Seq<u8> {
    blake3_digest(encode_utf8(token))
}

/// What a token is kept as: the digest of its UTF-8 bytes.
pub fn hash_token(token: &str) -> (r: [u8; 32])
    ensures
        r@ == token_hash(token@),
{
    blake3_hash(token.as_bytes())
}

/// The name of a kind of token.
pub open spec fn kind_text(kind: TokenKind) -> Seq<char> {
    match kind {
        TokenKind::Admin => "admin"@,
        TokenKind::User => "user"@,
    }
}

/// The name of a kind of token.
pub fn token_kind_name(kind: TokenKind) -> (r: &'static str)
    ensures
        r@ == kind_text(kind),
{
    match kind {
        TokenKind::Admin => "admin",
        TokenKind::User => "user",
    }
}

/// The token that the bytes `raw` make.
pub open spec fn token_text(kind: TokenKind, raw: Seq<u8>) -> Seq<char> {
    "ongrok_"@ + kind_text(kind) + "_"@ + hex_text(raw)
}

/// The token that `raw` makes, and its hash.
pub fn token_from_bytes(kind: TokenKind, raw: &[u8; 32]) -> (r: (String, [u8; 32]))
    ensures
        r.0@ == token_text(kind, raw@),
        r.1@ == token_hash(r.0@),
{
    let mut token = joined("ongrok_", token_kind_name(kind));
    token.append("_");
    let digits = hex_encode(raw.as_slice());
    token.append(digits.as_str());
    let hash = hash_token(token.as_str());
    (token, hash)
}

/// A new token of the given kind out of 32 random bytes, and its hash.
pub fn generate_token(kind: TokenKind) -> (r: (String, [u8; 32]))
    ensures
        exists|raw: [u8; 32]| r.0@ == #[trigger] token_text(kind, raw@),
        r.1@ == token_hash(r.0@),
{
    let raw = random_bytes();
    let made = token_from_bytes(kind, &raw);
    assert(made.0@ == token_text(kind, raw@));
    made
}

/// The hashes of the two tokens in force; a revoked token has none.
#[derive(Clone, Copy, Debug, PartialEq, Eq)]
pub struct TokenState {
    pub admin_hash: Option<[u8; 32]>,
    pub user_hash: Option<[u8; 32]>,
}

/// `TokenState` with its hashes as sequences of bytes.
#[verifier::ext_equal]
pub struct TokenModel {
    pub admin_hash: Option<Seq<u8>>,
    pub user_hash: Option<Seq<u8>>,
}

impl View for TokenState {
    type V = TokenModel;

    open spec fn view(&self) -> TokenModel {
        TokenModel {
            admin_hash: key_bytes(self.admin_hash),
            user_hash: key_bytes(self.user_hash),
        }
    }
}

impl TokenModel {
    /// The kind of the token with this hash, if it is in force.
    pub open spec fn authenticated(self, hash: Seq<u8>) -> Option<TokenKind> {
        if self.admin_hash == Some(hash) {
            Some(TokenKind::Admin)
        } else if self.user_hash == Some(hash) {
            Some(TokenKind::User)
        } else {
            None
        }
    }

    /// The tokens after the one of `kind` was replaced or revoked.
    pub open spec fn replaced(self, kind: TokenKind, hash: Option<Seq<u8>>) -> TokenModel {
        match kind {
            TokenKind::Admin => TokenModel { admin_hash: hash, ..self },
            TokenKind::User => TokenModel { user_hash: hash, ..self },
        }
    }
}

fn hash_matches(kept: &Option<[u8; 32]>, hash: &[u8; 32]) -> (r: bool)
    ensures
        r == (key_bytes(*kept) == Some(hash@)),
{
    match kept {
        Some(kept) => same_bytes(kept, hash),
        None => false,
    }
}

impl TokenState {
    /// The kind of the token with this hash, if it is in force.
    pub fn authenticate(&self, token_hash: [u8; 32]) -> (r: Option<TokenKind>)
        ensures
            r == self@.authenticated(token_hash@),
    {
        if hash_matches(&self.admin_hash, &token_hash) {
            Some(TokenKind::Admin)
        } else if hash_matches(&self.user_hash, &token_hash) {
            Some(TokenKind::User)
        } else {
            None
        }
    }

    /// Replaces the token of `kind`, or revokes it.
    pub fn set(&mut self, kind: TokenKind, token_hash: Option<[u8; 32]>)
        ensures
            final(self)@ == old(self)@.replaced(kind, key_bytes(token_hash)),
    {
        match kind {
            TokenKind::Admin => self.admin_hash = token_hash,
            TokenKind::User => self.user_hash = token_hash,
        }
    }
}

/// The tokens at start-up: those that were stored, or the initial ones.
pub fn load_or_initialize_tokens(
    stored: Option<TokenState>,
    initial_admin_hash: [u8; 32],
    initial_user_hash: [u8; 32],
) -> (r: (TokenState, bool))
    ensures
        match stored {
            Some(tokens) => r.0@ == tokens@ && !r.1,
            None => {
                &&& r.0@ == (TokenModel {
                    admin_hash: Some(initial_admin_hash@),
                    user_hash: Some(initial_user_hash@),
                })
                &&& r.1
            },
        },
{
    match stored {
        Some(tokens) => (tokens, false),
        None => (
            TokenState {
                admin_hash: Some(initial_admin_hash),
                user_hash: Some(initial_user_hash),
            },
            true,
        ),
    }
}

/// A new token is accepted from the moment it replaces the old one: as a token
/// of its kind, unless it is a user token that equals the admin token, which is
/// then what it counts as.
pub proof fn law_rotation_admits_new(tokens: TokenModel, kind: TokenKind, hash: Seq<u8>)
    requires
        kind == TokenKind::User ==> tokens.admin_hash != Some(hash),
    ensures
        tokens.replaced(kind, Some(hash)).authenticated(hash) == Some(kind),
{
}

/// From the moment it is replaced an old token no longer counts as one of its
/// kind, and the token of the other kind counts as before.
pub proof fn law_rotation_ends_old(
    tokens: TokenModel,
    kind: TokenKind,
    next: Option<Seq<u8>>,
    hash: Seq<u8>,
)
    requires
        next != Some(hash),
    ensures
        tokens.replaced(kind, next).authenticated(hash) != Some(kind),
        tokens.authenticated(hash) != Some(kind) ==> tokens.replaced(kind, next).authenticated(hash)
            == tokens.authenticated(hash),
{
}

/// After a revocation no token at all counts as one of that kind.
pub proof fn law_revocation_is_total(tokens: TokenModel, kind: TokenKind, hash: Seq<u8>)
    ensures
        tokens.replaced(kind, None).authenticated(hash) != Some(kind),
{
}

/// A token counts as an admin token if its hash is the one that is kept for
/// admin tokens, as a user token if it is the one that is kept for user tokens
/// and not both, and as nothing otherwise.
pub proof fn law_tokens_count_by_their_hash(tokens: TokenModel, hash: Seq<u8>)
    ensures
        tokens.authenticated(hash) == Some(TokenKind::Admin) <==> tokens.admin_hash == Some(hash),
        tokens.authenticated(hash) == Some(TokenKind::User) <==> tokens.user_hash == Some(hash)
            && tokens.admin_hash != Some(hash),
        tokens.authenticated(hash) is None <==> tokens.admin_hash != Some(hash) && tokens.user_hash
            != Some(hash),
{
}

/// Replacing the token of one kind sets its hash and leaves that of the other
/// kind alone.
pub proof fn law_replacement_sets_one_hash(tokens: TokenModel, hash: Option<Seq<u8>>)
    ensures
        tokens.replaced(TokenKind::Admin, hash).admin_hash == hash,
        tokens.replaced(TokenKind::Admin, hash).user_hash == tokens.user_hash,
        tokens.replaced(TokenKind::User, hash).user_hash == hash,
        tokens.replaced(TokenKind::User, hash).admin_hash == tokens.admin_hash,
{
}

/// A token says of what kind it is, and behind that has two characters for each
/// byte that it was made of.
pub proof fn law_tokens_show_their_kind(raw: Seq<u8>)
    ensures
        token_text(TokenKind::Admin, raw) == "ongrok_admin_"@ + hex_text(raw),
        token_text(TokenKind::User, raw) == "ongrok_user_"@ + hex_text(raw),
        hex_text(raw).len() == 2 * raw.len(),
{
    reveal_strlit("ongrok_admin_");
    reveal_strlit("ongrok_user_");
    reveal_strlit("ongrok_");
    reveal_strlit("admin");
    reveal_strlit("user");
    reveal_strlit("_");
    assert(token_text(TokenKind::Admin, raw) =~= "ongrok_admin_"@ + hex_text(raw));
    assert(token_text(TokenKind::User, raw) =~= "ongrok_user_"@ + hex_text(raw));
}

/// Tokens that were made of different bytes differ.
pub proof fn law_tokens_differ(kind: TokenKind, a: Seq<u8>, b: Seq<u8>)
    requires
        token_text(kind, a) == token_text(kind, b),
    ensures
        a == b,
{
    let head = "ongrok_"@ + kind_text(kind) + "_"@;
    let n = head.len() as int;
    assert(token_text(kind, a).skip(n) =~= hex_text(a));
    assert(token_text(kind, b).skip(n) =~= hex_text(b));
    law_hex_texts_differ(a, b);
}

} // verus!
