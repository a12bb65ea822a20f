//! Identifiers of nodes, services, tunnels, leases and events.

use vstd::prelude::*;
use crate::text::{hex_digit_char, lower_char, lower_text};

verus! {

/// Whether `id` has the bit pattern of a version 7 UUID: the version in bits
/// 76 to 79, the variant in bits 62 and 63.
pub open spec fn is_version_7(id: u128) -> bool {
    &&& (id / 0x1000_0000_0000_0000_0000u128) % 16 == 7
    &&& (id / 0x4000_0000_0000_0000u128) % 4 == 2
}

/// `uuid::Uuid::now_v7` makes a new time-ordered identifier. It rests on the
/// clock and on chance; what is claimed of every outcome is the version and
/// the variant that its bits carry. Where the clock stands before 1970 there is
/// no outcome: the call panics.
#[verifier::external_body]
fn uuid_now_v7() -> (id: u128)
    ensures
        is_version_7(id),
{
    uuid::Uuid::now_v7().as_u128()
}

/// The last `n` hexadecimal digits of `id`, with leading zeros.
pub open spec fn hex_digits(id: nat, n: nat) -> Seq<char>
    decreases n,
{
    if n == 0 {
        seq![]
    } else {
        hex_digits(id / 16, (n - 1) as nat).push(hex_digit_char((id % 16) as int))
    }
}

/// The usual text of an identifier: 32 hexadecimal digits in five groups of
/// 8, 4, 4, 4 and 12, with a hyphen between groups.
pub open spec fn uuid_text(id: u128) -> Seq<char> {
    let d = hex_digits(id as nat, 32);
    d.subrange(0, 8) + "-"@ + d.subrange(8, 12) + "-"@ + d.subrange(12, 16) + "-"@ + d.subrange(
        16,
        20,
    ) + "-"@ + d.subrange(20, 32)
}

/// Whether `text` is a spelling of the identifier `id`: its digits alone, or its
/// usual text, as it is, in braces or behind `urn:uuid:`. The case of letters
/// does not matter.
pub open spec fn spells(text: Seq<char>, id: u128) -> bool {
    let plain = lower_text(text);
    ||| plain == hex_digits(id as nat, 32)
    ||| plain == uuid_text(id)
    ||| plain == "{"@ + uuid_text(id) + "}"@
    ||| plain == "urn:uuid:"@ + uuid_text(id)
}

/// The identifier that a text spells, if it spells one.
pub open spec fn parsed_uuid(text: Seq<char>) -> Option<u128> {
    if exists|id: u128| spells(text, id) {
        Some(choose|id: u128| spells(text, id))
    } else {
        None
    }
}

/// The `Display` text of a `uuid::Uuid` is its hyphenated form in lower case.
#[verifier::external_body]
fn uuid_to_text(id: u128) -> (r: String)
    ensures
        r@ == uuid_text(id),
{
    uuid::Uuid::from_u128(id).to_string()
}

/// `uuid::Uuid::parse_str` reads an identifier in any of its four spellings,
/// without regard to the case of letters, and refuses every other text.
#[verifier::external_body]
fn uuid_parse(text: &str) -> (r: Option<u128>)
    ensures
        match r {
            Some(id) => spells(text@, id),
            None => forall|id: u128| !spells(text@, id),
        },
{
    match uuid::Uuid::parse_str(text) {
        Ok(id) => Some(id.as_u128()),
        Err(_) => None,
    }
}

/// The usual text of an identifier.
pub fn id_text(id: u128) -> (r: String)
    ensures
        r@ == uuid_text(id),
{
    uuid_to_text(id)
}

/// Reads an identifier from its text.
pub fn parse_id(text: &str) -> (r: Option<u128>)
    ensures
        r == parsed_uuid(text@),
{
    let r: Option<u128> = uuid_parse(text);
    proof {
        if let Some(id) = r {
            let chosen = choose|id: u128| spells(text@, id);
            law_spelling_is_of_one_id(text@, id, chosen);
        }
    }
    r
}

proof fn lemma_hex_digits_len(id: nat, n: nat)
    ensures
        hex_digits(id, n).len() == n,
    decreases n,
{
    if n > 0 {
        lemma_hex_digits_len(id / 16, (n - 1) as nat);
    }
}

/// What `n` hexadecimal digits can tell apart.
spec fn sixteen_to(n: nat) -> nat
    decreases n,
{
    if n == 0 {
        1
    } else {
        16 * sixteen_to((n - 1) as nat)
    }
}

proof fn lemma_hex_digits_once(a: nat, b: nat, n: nat)
    requires
        a < sixteen_to(n),
        b < sixteen_to(n),
        hex_digits(a, n) == hex_digits(b, n),
    ensures
        a == b,
    decreases n,
{
    if n > 0 {
        let m = (n - 1) as nat;
        let (p, q) = (hex_digits(a / 16, m), hex_digits(b / 16, m));
        lemma_hex_digits_len(a / 16, m);
        lemma_hex_digits_len(b / 16, m);
        let (x, y) = (hex_digits(a, n), hex_digits(b, n));
        assert(x == p.push(hex_digit_char((a % 16) as int)));
        assert(y == q.push(hex_digit_char((b % 16) as int)));
        assert(p =~= x.drop_last());
        assert(q =~= y.drop_last());
        assert(x.last() == hex_digit_char((a % 16) as int));
        assert(y.last() == hex_digit_char((b % 16) as int));
        lemma_hex_digits_once(a / 16, b / 16, m);
    }
}

/// The text of an identifier has 36 characters.
pub proof fn lemma_uuid_text_len(id: u128)
    ensures
        uuid_text(id).len() == 36,
{
    lemma_hex_digits_len(id as nat, 32);
    reveal_strlit("-");
}

proof fn lemma_hex_digits_are_no_slashes(id: nat, n: nat)
    ensures
        forall|i: int| 0 <= i < hex_digits(id, n).len() ==> #[trigger] hex_digits(id, n)[i] != '/',
    decreases n,
{
    if n > 0 {
        let front = hex_digits(id / 16, (n - 1) as nat);
        let all = hex_digits(id, n);
        lemma_hex_digits_are_no_slashes(id / 16, (n - 1) as nat);
        assert forall|i: int| 0 <= i < all.len() implies #[trigger] all[i] != '/' by {
            if i < front.len() {
                assert(all[i] == front[i]);
            }
        }
    }
}

/// The text of an identifier has no slash in it.
pub proof fn lemma_uuid_text_has_no_slash(id: u128)
    ensures
        forall|i: int| 0 <= i < uuid_text(id).len() ==> #[trigger] uuid_text(id)[i] != '/',
{
    let d = hex_digits(id as nat, 32);
    let text = uuid_text(id);
    lemma_hex_digits_len(id as nat, 32);
    lemma_hex_digits_are_no_slashes(id as nat, 32);
    reveal_strlit("-");
    assert forall|i: int| 0 <= i < text.len() implies #[trigger] text[i] != '/' by {
        assert(forall|k: int| 0 <= k < 32 ==> #[trigger] d[k] != '/');
    }
}

/// Different identifiers have different texts.
pub proof fn law_id_texts_differ(a: u128, b: u128)
    requires
        uuid_text(a) == uuid_text(b),
    ensures
        a == b,
{
    let (x, y) = (hex_digits(a as nat, 32), hex_digits(b as nat, 32));
    let (s, t) = (uuid_text(a), uuid_text(b));
    lemma_hex_digits_len(a as nat, 32);
    lemma_hex_digits_len(b as nat, 32);
    reveal_strlit("-");
    assert(x.subrange(0, 8) =~= s.subrange(0, 8));
    assert(x.subrange(8, 12) =~= s.subrange(9, 13));
    assert(x.subrange(12, 16) =~= s.subrange(14, 18));
    assert(x.subrange(16, 20) =~= s.subrange(19, 23));
    assert(x.subrange(20, 32) =~= s.subrange(24, 36));
    assert(y.subrange(0, 8) =~= t.subrange(0, 8));
    assert(y.subrange(8, 12) =~= t.subrange(9, 13));
    assert(y.subrange(12, 16) =~= t.subrange(14, 18));
    assert(y.subrange(16, 20) =~= t.subrange(19, 23));
    assert(y.subrange(20, 32) =~= t.subrange(24, 36));
    assert(x =~= x.subrange(0, 8) + x.subrange(8, 12) + x.subrange(12, 16) + x.subrange(16, 20)
        + x.subrange(20, 32));
    assert(y =~= y.subrange(0, 8) + y.subrange(8, 12) + y.subrange(12, 16) + y.subrange(16, 20)
        + y.subrange(20, 32));
    reveal_with_fuel(sixteen_to, 33);
    lemma_hex_digits_once(a as nat, b as nat, 32);
}

/// A text spells one identifier at most.
pub proof fn law_spelling_is_of_one_id(text: Seq<char>, a: u128, b: u128)
    requires
        spells(text, a),
        spells(text, b),
    ensures
        a == b,
{
    let plain = lower_text(text);
    let (x, y) = (uuid_text(a), uuid_text(b));
    lemma_hex_digits_len(a as nat, 32);
    lemma_hex_digits_len(b as nat, 32);
    lemma_uuid_text_len(a);
    lemma_uuid_text_len(b);
    reveal_strlit("{");
    reveal_strlit("}");
    reveal_strlit("urn:uuid:");
    if plain.len() == 32 {
        reveal_with_fuel(sixteen_to, 33);
        lemma_hex_digits_once(a as nat, b as nat, 32);
    } else {
        if plain.len() == 38 {
            assert(x =~= plain.subrange(1, 37));
            assert(y =~= plain.subrange(1, 37));
        } else if plain.len() == 45 {
            assert(x =~= plain.subrange(9, 45));
            assert(y =~= plain.subrange(9, 45));
        }
        law_id_texts_differ(a, b);
    }
}

proof fn lemma_hex_digits_are_lower(id: nat, n: nat)
    ensures
        lower_text(hex_digits(id, n)) == hex_digits(id, n),
    decreases n,
{
    if n > 0 {
        let front = hex_digits(id / 16, (n - 1) as nat);
        lemma_hex_digits_are_lower(id / 16, (n - 1) as nat);
        let all = hex_digits(id, n);
        assert forall|i: int| 0 <= i < all.len() implies lower_text(all)[i] == all[i] by {
            if i < front.len() {
                assert(lower_text(front)[i] == front[i]);
            }
        }
        assert(lower_text(all) =~= all);
    }
}

/// The usual text of an identifier is read back as that identifier.
pub proof fn law_id_reads_back(id: u128)
    ensures
        parsed_uuid(uuid_text(id)) == Some(id),
{
    let d = hex_digits(id as nat, 32);
    let text = uuid_text(id);
    lemma_hex_digits_len(id as nat, 32);
    lemma_hex_digits_are_lower(id as nat, 32);
    reveal_strlit("-");
    assert forall|i: int| 0 <= i < text.len() implies lower_text(text)[i] == text[i] by {
        assert forall|k: int| 0 <= k < 32 implies lower_char(#[trigger] d[k]) == d[k] by {
            assert(lower_text(d)[k] == d[k]);
        }
    }
    assert(lower_text(text) =~= text);
    assert(spells(text, id));
    law_spelling_is_of_one_id(text, id, choose|other: u128| spells(text, other));
}

/// A relay client.
#[derive(Clone, Copy, Debug, PartialEq, Eq, PartialOrd, Ord, Hash, Structural)]
pub struct NodeId(pub u128);

/// A published service.
#[derive(Clone, Copy, Debug, PartialEq, Eq, PartialOrd, Ord, Hash, Structural)]
pub struct ServiceId(pub u128);

/// A session or a data stream.
#[derive(Clone, Copy, Debug, PartialEq, Eq, PartialOrd, Ord, Hash, Structural)]
pub struct TunnelId(pub u128);

/// A lease of a public port.
#[derive(Clone, Copy, Debug, PartialEq, Eq, PartialOrd, Ord, Hash, Structural)]
pub struct PortLeaseId(pub u128);

/// A recorded event.
#[derive(Clone, Copy, Debug, PartialEq, Eq, PartialOrd, Ord, Hash, Structural)]
pub struct EventId(pub u128);

impl NodeId {
    /// A new identifier.
    pub fn new() -> (r: Self)
        ensures
            is_version_7(r.0),
    {
        NodeId(uuid_now_v7())
    }
}

impl ServiceId {
    /// A new identifier.
    pub fn new() -> (r: Self)
        ensures
            is_version_7(r.0),
    {
        ServiceId(uuid_now_v7())
    }
}

impl TunnelId {
    /// A new identifier.
    pub fn new() -> (r: Self)
        ensures
            is_version_7(r.0),
    {
        TunnelId(uuid_now_v7())
    }
}

impl PortLeaseId {
    /// A new identifier.
    pub fn new() -> (r: Self)
        ensures
            is_version_7(r.0),
    {
        PortLeaseId(uuid_now_v7())
    }
}

impl EventId {
    /// A new identifier.
    pub fn new() -> (r: Self)
        ensures
            is_version_7(r.0),
    {
        EventId(uuid_now_v7())
    }
}

impl Default for NodeId {
    fn default() -> (r: Self)
        ensures
            is_version_7(r.0),
    {
        NodeId::new()
    }
}

impl Default for ServiceId {
    fn default() -> (r: Self)
        ensures
            is_version_7(r.0),
    {
        ServiceId::new()
    }
}

impl Default for TunnelId {
    fn default() -> (r: Self)
        ensures
            is_version_7(r.0),
    {
        TunnelId::new()
    }
}

impl Default for PortLeaseId {
    fn default() -> (r: Self)
        ensures
            is_version_7(r.0),
    {
        PortLeaseId::new()
    }
}

impl Default for EventId {
    fn default() -> (r: Self)
        ensures
            is_version_7(r.0),
    {
        EventId::new()
    }
}

/// The number that a sequence of hexadecimal digits stands for.
pub open spec fn hex_value(s: Seq<char>) -> int
    decreases s.len(),
{
    if s.len() == 0 {
        0
    } else {
        let c = s.last();
        16 * hex_value(s.drop_last()) + if '0' <= c <= '9' {
            c as int - '0' as int
        } else {
            c as int - 'a' as int + 10
        }
    }
}

proof fn lemma_hex_value(id: nat, n: nat)
    requires
        id < sixteen_to(n),
    ensures
        hex_value(hex_digits(id, n)) == id,
    decreases n,
{
    if n > 0 {
        let front = hex_digits(id / 16, (n - 1) as nat);
        lemma_hex_value(id / 16, (n - 1) as nat);
        assert(hex_digits(id, n).drop_last() =~= front);
    }
}

/// The text of an identifier is its number in 32 hexadecimal digits, with
/// hyphens behind the first 8 and then behind each 4 of the next 12.
pub proof fn law_id_text_is_its_number(id: u128)
    ensures
        ({
            let text = uuid_text(id);
            &&& text.len() == 36
            &&& text[8] == '-' && text[13] == '-' && text[18] == '-' && text[23] == '-'
            &&& hex_value(
                text.subrange(0, 8) + text.subrange(9, 13) + text.subrange(14, 18) + text.subrange(
                    19,
                    23,
                ) + text.subrange(24, 36),
            ) == id
        }),
{
    let d = hex_digits(id as nat, 32);
    let text = uuid_text(id);
    lemma_hex_digits_len(id as nat, 32);
    reveal_strlit("-");
    reveal_with_fuel(sixteen_to, 33);
    lemma_hex_value(id as nat, 32);
    assert(text.subrange(0, 8) + text.subrange(9, 13) + text.subrange(14, 18) + text.subrange(
        19,
        23,
    ) + text.subrange(24, 36) =~= d);
}

} // verus!
