//! Bounded key-value annotations of nodes and services, and service names.

use vstd::prelude::*;
use vstd::utf8::{encode_utf8, is_ascii_chars, is_ascii_chars_encode_utf8};
use crate::text::{chars_of, joined};

verus! {

/// Whether `a` comes before `b` in the order of strings: by the first
/// character in which they differ, a proper prefix first.
pub open spec fn text_before(a: Seq<char>, b: Seq<char>) -> bool
    decreases a.len(),
{
    if b.len() == 0 {
        false
    } else if a.len() == 0 {
        true
    } else if a[0] != b[0] {
        a[0] < b[0]
    } else {
        text_before(a.drop_first(), b.drop_first())
    }
}

/// No text comes before itself, and of two different texts one comes first.
pub proof fn lemma_text_order_total(a: Seq<char>, b: Seq<char>)
    ensures
        a == b ==> !text_before(a, b),
        a != b ==> (text_before(a, b) <==> !text_before(b, a)),
    decreases a.len(),
{
    if a.len() > 0 && b.len() > 0 {
        lemma_text_order_total(a.drop_first(), b.drop_first());
        if a[0] == b[0] {
            assert(a =~= seq![a[0]] + a.drop_first());
            assert(b =~= seq![b[0]] + b.drop_first());
        }
    } else if a.len() == 0 && b.len() == 0 {
        assert(a =~= b);
    }
}

/// The order of texts is transitive.
pub proof fn lemma_text_order_transitive(a: Seq<char>, b: Seq<char>, c: Seq<char>)
    requires
        text_before(a, b),
        text_before(b, c),
    ensures
        text_before(a, c),
    decreases a.len(),
{
    if a.len() > 0 && b.len() > 0 && c.len() > 0 && a[0] == b[0] && b[0] == c[0] {
        lemma_text_order_transitive(a.drop_first(), b.drop_first(), c.drop_first());
    }
}

/// Texts that begin with parts of one length are ordered by these parts first.
pub proof fn lemma_text_order_by_parts(a: Seq<char>, b: Seq<char>, s: Seq<char>, t: Seq<char>)
    requires
        a.len() == b.len(),
    ensures
        text_before(a + s, b + t) <==> text_before(a, b) || (a == b && text_before(s, t)),
    decreases a.len(),
{
    if a.len() == 0 {
        assert(a + s =~= s);
        assert(b + t =~= t);
        assert(a =~= b);
    } else {
        assert((a + s).drop_first() =~= a.drop_first() + s);
        assert((b + t).drop_first() =~= b.drop_first() + t);
        lemma_text_order_by_parts(a.drop_first(), b.drop_first(), s, t);
        if a[0] == b[0] && a.drop_first() == b.drop_first() {
            assert(a =~= seq![a[0]] + a.drop_first());
            assert(b =~= seq![b[0]] + b.drop_first());
        }
    }
}

/// Whether `a` comes before `b` in the order of strings.
pub fn comes_before(a: &str, b: &str) -> (r: bool)
    ensures
        r == text_before(a@, b@),
{
    let ac = chars_of(a);
    let bc = chars_of(b);
    let mut i: usize = 0;
    assert(a@.skip(0) =~= a@);
    assert(b@.skip(0) =~= b@);
    while i < ac.len() && i < bc.len()
        invariant
            ac@ == a@,
            bc@ == b@,
            i <= ac@.len(),
            i <= bc@.len(),
            text_before(a@, b@) == text_before(a@.skip(i as int), b@.skip(i as int)),
        decreases ac@.len() - i,
    {
        if ac[i] != bc[i] {
            return ac[i] < bc[i];
        }
        assert(a@.skip(i as int).drop_first() =~= a@.skip(i + 1));
        assert(b@.skip(i as int).drop_first() =~= b@.skip(i + 1));
        i += 1;
    }
    i < bc.len()
}

/// Texts by text, kept in the order of their keys; each key occurs once.
#[derive(Debug, PartialEq, Eq)]
pub struct StringMap {
    entries: Vec<(String, String)>,
}

/// Whether the keys of `s` stand in strictly increasing order.
pub open spec fn keys_increasing(s: Seq<(Seq<char>, Seq<char>)>) -> bool {
    forall|i: int, j: int| 0 <= i < j < s.len() ==> text_before(#[trigger] s[i].0, #[trigger] s[j].0)
}

/// Whether `s` holds an entry with the key `key`.
pub open spec fn has_key(s: Seq<(Seq<char>, Seq<char>)>, key: Seq<char>) -> bool {
    exists|i: int| 0 <= i < s.len() && (#[trigger] s[i]).0 == key
}

/// The value at `key` in `s`, if there is one.
pub open spec fn value_at(s: Seq<(Seq<char>, Seq<char>)>, key: Seq<char>) -> Option<Seq<char>> {
    if has_key(s, key) {
        Some(s[choose|i: int| 0 <= i < s.len() && (#[trigger] s[i]).0 == key].1)
    } else {
        None
    }
}

/// In an ordered map an entry is the one that its key finds.
pub proof fn lemma_value_at(s: Seq<(Seq<char>, Seq<char>)>, i: int)
    requires
        keys_increasing(s),
        0 <= i < s.len(),
    ensures
        value_at(s, s[i].0) == Some(s[i].1),
{
    let k = choose|k: int| 0 <= k < s.len() && (#[trigger] s[k]).0 == s[i].0;
    assert(0 <= k < s.len() && s[k].0 == s[i].0);
    lemma_text_order_total(s[i].0, s[k].0);
    if k < i {
        assert(text_before(s[k].0, s[i].0));
    } else if i < k {
        assert(text_before(s[i].0, s[k].0));
    }
}

impl View for StringMap {
    type V = Seq<(Seq<char>, Seq<char>)>;

    closed spec fn view(&self) -> Seq<(Seq<char>, Seq<char>)> {
        self.entries@.map_values(|e: (String, String)| (e.0@, e.1@))
    }
}

impl StringMap {
    #[verifier::type_invariant]
    closed spec fn ordered(&self) -> bool {
        keys_increasing(self@)
    }

    /// A map without entries.
    pub fn new() -> (r: Self)
        ensures
            r@ == Seq::<(Seq<char>, Seq<char>)>::empty(),
    {
        let entries: Vec<(String, String)> = Vec::new();
        assert(entries@.map_values(|e: (String, String)| (e.0@, e.1@)) =~= Seq::empty());
        StringMap { entries }
    }

    /// The number of entries.
    pub fn len(&self) -> (n: usize)
        ensures
            n == self@.len(),
    {
        self.entries.len()
    }

    /// The entry at position `i` in the order of keys.
    pub fn entry(&self, i: usize) -> (r: (&str, &str))
        requires
            i < self@.len(),
        ensures
            r.0@ == self@[i as int].0,
            r.1@ == self@[i as int].1,
    {
        let e = &self.entries[i];
        (e.0.as_str(), e.1.as_str())
    }

    /// Sets the value at `key` and hands back the one that was there.
    pub fn insert(&mut self, key: String, value: String) -> (r: Option<String>)
        ensures
            keys_increasing(final(self)@),
            forall|k: Seq<char>| #[trigger] value_at(final(self)@, k) == (if k == key@ {
                Some(value@)
            } else {
                value_at(old(self)@, k)
            }),
            match r {
                Some(previous) => value_at(old(self)@, key@) == Some(previous@),
                None => value_at(old(self)@, key@) is None,
            },
    {
        proof {
            use_type_invariant(&*self);
        }
        let ghost before = self@;
        let mut entries: Vec<(String, String)> = Vec::new();
        std::mem::swap(&mut entries, &mut self.entries);
        let ghost start = entries@;
        let mut i: usize = 0;
        while i < entries.len() && comes_before(entries[i].0.as_str(), key.as_str())
            invariant
                entries@ == start,
                i <= entries@.len(),
                forall|j: int| 0 <= j < i ==> text_before(#[trigger] start[j].0@, key@),
            decreases entries@.len() - i,
        {
            i += 1;
        }
        let ghost model = |e: (String, String)| (e.0@, e.1@);
        assert(before == start.map_values(model));
        if i < entries.len() && entries[i].0 == key {
            let ghost at = i as int;
            let (kept_key, previous) = entries.remove(i);
            entries.insert(i, (kept_key, value));
            proof {
                let after = entries@.map_values(model);
                assert(after =~= before.update(at, (key@, value@)));
                lemma_replaced(before, at, value@);
            }
            self.entries = entries;
            Some(previous)
        } else {
            proof {
                let after = start.insert(i as int, (key, value)).map_values(model);
                assert(after =~= before.insert(i as int, (key@, value@)));
                assert forall|j: int| i <= j < before.len() implies text_before(
                    key@,
                    (#[trigger] before[j]).0,
                ) by {
                    lemma_text_order_total(start[i as int].0@, key@);
                    assert(before[i as int].0 == start[i as int].0@);
                    if j > i {
                        assert(text_before(before[i as int].0, before[j].0));
                        lemma_text_order_transitive(key@, before[i as int].0, before[j].0);
                    }
                }
                assert forall|j: int| 0 <= j < i implies text_before((#[trigger] before[j]).0, key@) by {
                    assert(before[j].0 == start[j].0@);
                }
                lemma_inserted(before, i as int, key@, value@);
            }
            entries.insert(i, (key, value));
            self.entries = entries;
            None
        }
    }
}

/// Replacing a value keeps the order and changes that value alone.
proof fn lemma_replaced(s: Seq<(Seq<char>, Seq<char>)>, at: int, value: Seq<char>)
    requires
        keys_increasing(s),
        0 <= at < s.len(),
    ensures
        keys_increasing(s.update(at, (s[at].0, value))),
        value_at(s, s[at].0) == Some(s[at].1),
        forall|k: Seq<char>| #[trigger]
            value_at(s.update(at, (s[at].0, value)), k) == (if k == s[at].0 {
                Some(value)
            } else {
                value_at(s, k)
            }),
{
    let t = s.update(at, (s[at].0, value));
    assert(keys_increasing(t)) by {
        assert forall|i: int, j: int| 0 <= i < j < t.len() implies text_before(
            #[trigger] t[i].0,
            #[trigger] t[j].0,
        ) by {
            assert(t[i].0 == s[i].0 && t[j].0 == s[j].0);
        }
    }
    lemma_value_at(s, at);
    assert forall|k: Seq<char>| #[trigger] value_at(t, k) == (if k == s[at].0 {
        Some(value)
    } else {
        value_at(s, k)
    }) by {
        if k == s[at].0 {
            lemma_value_at(t, at);
        } else if has_key(t, k) {
            let i = choose|i: int| 0 <= i < t.len() && (#[trigger] t[i]).0 == k;
            assert(i != at && s[i] == t[i]);
            lemma_value_at(t, i);
            lemma_value_at(s, i);
        } else if has_key(s, k) {
            let i = choose|i: int| 0 <= i < s.len() && (#[trigger] s[i]).0 == k;
            assert(t[i].0 == k);
        }
    }
}

/// Inserting a new key at its place keeps the order and adds that key alone.
proof fn lemma_inserted(
    s: Seq<(Seq<char>, Seq<char>)>,
    at: int,
    key: Seq<char>,
    value: Seq<char>,
)
    requires
        keys_increasing(s),
        0 <= at <= s.len(),
        forall|j: int| 0 <= j < at ==> text_before((#[trigger] s[j]).0, key),
        forall|j: int| at <= j < s.len() ==> text_before(key, (#[trigger] s[j]).0),
    ensures
        keys_increasing(s.insert(at, (key, value))),
        value_at(s, key) is None,
        forall|k: Seq<char>| #[trigger]
            value_at(s.insert(at, (key, value)), k) == (if k == key {
                Some(value)
            } else {
                value_at(s, k)
            }),
{
    let t = s.insert(at, (key, value));
    assert(keys_increasing(t)) by {
        assert forall|i: int, j: int| 0 <= i < j < t.len() implies text_before(
            #[trigger] t[i].0,
            #[trigger] t[j].0,
        ) by {
            let si = if i < at { s[i] } else if i == at { (key, value) } else { s[i - 1] };
            let sj = if j < at { s[j] } else if j == at { (key, value) } else { s[j - 1] };
            assert(t[i] == si && t[j] == sj);
        }
    }
    lemma_text_order_total(key, key);
    assert(!has_key(s, key));
    assert forall|k: Seq<char>| #[trigger] value_at(t, k) == (if k == key {
        Some(value)
    } else {
        value_at(s, k)
    }) by {
        if k == key {
            assert(t[at] == (key, value));
            lemma_value_at(t, at);
        } else if has_key(t, k) {
            let i = choose|i: int| 0 <= i < t.len() && (#[trigger] t[i]).0 == k;
            let from = if i < at { i } else { i - 1 };
            assert(i != at && s[from] == t[i]);
            lemma_value_at(t, i);
            lemma_value_at(s, from);
        } else if has_key(s, k) {
            let i = choose|i: int| 0 <= i < s.len() && (#[trigger] s[i]).0 == k;
            let to = if i < at { i } else { i + 1 };
            assert(t[to] == s[i]);
        }
    }
}

impl Clone for StringMap {
    fn clone(&self) -> (r: Self)
        ensures
            r@ == self@,
    {
        proof {
            use_type_invariant(self);
        }
        let mut entries: Vec<(String, String)> = Vec::new();
        let mut i: usize = 0;
        while i < self.entries.len()
            invariant
                i <= self.entries@.len(),
                entries@ == self.entries@.take(i as int),
            decreases self.entries@.len() - i,
        {
            let e = &self.entries[i];
            entries.push((e.0.clone(), e.1.clone()));
            i += 1;
        }
        assert(entries@ =~= self.entries@);
        StringMap { entries }
    }
}

/// Annotations of a node or a service.
#[derive(Debug, PartialEq, Eq)]
pub struct Metadata(pub StringMap);

impl View for Metadata {
    type V = Seq<(Seq<char>, Seq<char>)>;

    open spec fn view(&self) -> Seq<(Seq<char>, Seq<char>)> {
        self.0@
    }
}

impl Clone for Metadata {
    fn clone(&self) -> (r: Self)
        ensures
            r@ == self@,
    {
        Metadata(self.0.clone())
    }
}

impl Default for Metadata {
    fn default() -> (r: Self)
        ensures
            r@ == Seq::<(Seq<char>, Seq<char>)>::empty(),
    {
        Metadata(StringMap::new())
    }
}

/// Why metadata or a service name is not accepted.
#[derive(Debug, PartialEq, Eq)]
pub enum ValidationError {
    TooManyMetadataEntries,
    InvalidMetadataKey(String),
    MetadataValueTooLong(String),
    MetadataTooLarge,
    InvalidServiceName,
}

/// A `ValidationError` with its texts as sequences of characters.
pub enum ValidationFault {
    TooManyMetadataEntries,
    InvalidMetadataKey(Seq<char>),
    MetadataValueTooLong(Seq<char>),
    MetadataTooLarge,
    InvalidServiceName,
}

impl View for ValidationError {
    type V = ValidationFault;

    open spec fn view(&self) -> ValidationFault {
        match self {
            ValidationError::TooManyMetadataEntries => ValidationFault::TooManyMetadataEntries,
            ValidationError::InvalidMetadataKey(key) => ValidationFault::InvalidMetadataKey(key@),
            ValidationError::MetadataValueTooLong(key) => ValidationFault::MetadataValueTooLong(
                key@,
            ),
            ValidationError::MetadataTooLarge => ValidationFault::MetadataTooLarge,
            ValidationError::InvalidServiceName => ValidationFault::InvalidServiceName,
        }
    }
}

/// The text of a fault.
pub open spec fn fault_text(fault: ValidationFault) -> Seq<char> {
    match fault {
        ValidationFault::TooManyMetadataEntries => "too many metadata entries"@,
        ValidationFault::InvalidMetadataKey(key) => "invalid metadata key: "@ + key,
        ValidationFault::MetadataValueTooLong(key) => "metadata value too long for key: "@ + key,
        ValidationFault::MetadataTooLarge => "metadata exceeds total size limit"@,
        ValidationFault::InvalidServiceName => "service name is invalid"@,
    }
}

impl ValidationError {
    /// The error as a text for people.
    pub fn message(&self) -> (r: String)
        ensures
            r@ == fault_text(self@),
    {
        match self {
            ValidationError::TooManyMetadataEntries => "too many metadata entries".to_owned(),
            ValidationError::InvalidMetadataKey(key) => joined(
                "invalid metadata key: ",
                key.as_str(),
            ),
            ValidationError::MetadataValueTooLong(key) => joined(
                "metadata value too long for key: ",
                key.as_str(),
            ),
            ValidationError::MetadataTooLarge => "metadata exceeds total size limit".to_owned(),
            ValidationError::InvalidServiceName => "service name is invalid".to_owned(),
        }
    }
}

/// Whether `c` is a lower-case ASCII letter or a decimal digit.
pub open spec fn lower_or_digit(c: char) -> bool {
    'a' <= c <= 'z' || '0' <= c <= '9'
}

/// Whether `c` may stand in a metadata key.
pub open spec fn key_char(c: char) -> bool {
    lower_or_digit(c) || c == '-' || c == '_' || c == '.'
}

/// Whether `key` is an acceptable metadata key.
pub open spec fn valid_key(key: Seq<char>) -> bool {
    &&& 1 <= key.len() <= Metadata::MAX_KEY_LEN
    &&& forall|i: int| 0 <= i < key.len() ==> key_char(#[trigger] key[i])
}

/// What is wrong with one entry, if anything.
pub open spec fn entry_fault(entry: (Seq<char>, Seq<char>)) -> Option<ValidationFault> {
    if !valid_key(entry.0) {
        Some(ValidationFault::InvalidMetadataKey(entry.0))
    } else if encode_utf8(entry.1).len() > Metadata::MAX_VALUE_LEN {
        Some(ValidationFault::MetadataValueTooLong(entry.0))
    } else {
        None
    }
}

/// The fault of the first faulty entry in the order of keys.
pub open spec fn first_entry_fault(
    entries: Seq<(Seq<char>, Seq<char>)>,
) -> Option<ValidationFault>
    decreases entries.len(),
{
    if entries.len() == 0 {
        None
    } else if first_entry_fault(entries.drop_last()) is Some {
        first_entry_fault(entries.drop_last())
    } else {
        entry_fault(entries.last())
    }
}

/// The bytes that all keys and values take together.
pub open spec fn total_bytes(entries: Seq<(Seq<char>, Seq<char>)>) -> nat
    decreases entries.len(),
{
    if entries.len() == 0 {
        0
    } else {
        total_bytes(entries.drop_last()) + encode_utf8(entries.last().0).len() + encode_utf8(
            entries.last().1,
        ).len()
    }
}

/// What is wrong with metadata, if anything.
pub open spec fn metadata_fault(entries: Seq<(Seq<char>, Seq<char>)>) -> Option<ValidationFault> {
    if entries.len() > Metadata::MAX_ENTRIES {
        Some(ValidationFault::TooManyMetadataEntries)
    } else if first_entry_fault(entries) is Some {
        first_entry_fault(entries)
    } else if total_bytes(entries) > Metadata::MAX_TOTAL_BYTES {
        Some(ValidationFault::MetadataTooLarge)
    } else {
        None
    }
}

/// A fault among the first entries is the fault of all of them.
proof fn lemma_early_fault(entries: Seq<(Seq<char>, Seq<char>)>, n: int)
    requires
        0 <= n <= entries.len(),
        first_entry_fault(entries.take(n)) is Some,
    ensures
        first_entry_fault(entries) == first_entry_fault(entries.take(n)),
    decreases entries.len(),
{
    if n < entries.len() {
        assert(entries.drop_last().take(n) =~= entries.take(n));
        lemma_early_fault(entries.drop_last(), n);
    } else {
        assert(entries.take(n) =~= entries);
    }
}

fn key_is_valid(key: &str) -> (r: bool)
    ensures
        r == valid_key(key@),
{
    let kc = chars_of(key);
    if kc.len() == 0 || kc.len() > Metadata::MAX_KEY_LEN {
        return false;
    }
    let mut i: usize = 0;
    while i < kc.len()
        invariant
            kc@ == key@,
            i <= kc@.len(),
            forall|j: int| 0 <= j < i ==> key_char(#[trigger] key@[j]),
        decreases kc@.len() - i,
    {
        let c: char = kc[i];
        let ok = ('a' <= c && c <= 'z') || ('0' <= c && c <= '9') || c == '-' || c == '_' || c
            == '.';
        if !ok {
            return false;
        }
        i += 1;
    }
    true
}

impl Metadata {
    pub const MAX_ENTRIES: usize = 32;

    pub const MAX_KEY_LEN: usize = 64;

    pub const MAX_VALUE_LEN: usize = 256;

    pub const MAX_TOTAL_BYTES: usize = 4096;

    /// Checks the number of entries, every key and value in the order of keys,
    /// and then the total size; the first fault found is returned.
    pub fn validate(&self) -> (r: Result<(), ValidationError>)
        ensures
            match r {
                Ok(_) => metadata_fault(self@) is None,
                Err(error) => metadata_fault(self@) == Some(error@),
            },
    {
        if self.0.len() > Self::MAX_ENTRIES {
            return Err(ValidationError::TooManyMetadataEntries);
        }
        let mut total: usize = 0;
        let mut i: usize = 0;
        assert(self@.take(0) =~= Seq::empty());
        while i < self.0.len()
            invariant
                i <= self@.len() <= Self::MAX_ENTRIES,
                first_entry_fault(self@.take(i as int)) is None,
                total == total_bytes(self@.take(i as int)),
                total <= i * 320,
            decreases self@.len() - i,
        {
            let (key, value) = self.0.entry(i);
            let ghost shown = self@.take(i + 1);
            assert(shown.drop_last() =~= self@.take(i as int));
            assert(shown.last() == (key@, value@));
            if !key_is_valid(key) {
                proof {
                    lemma_early_fault(self@, i + 1);
                }
                return Err(ValidationError::InvalidMetadataKey(key.to_owned()));
            }
            let value_len: usize = value.as_bytes().len();
            if value_len > Self::MAX_VALUE_LEN {
                proof {
                    lemma_early_fault(self@, i + 1);
                }
                return Err(ValidationError::MetadataValueTooLong(key.to_owned()));
            }
            let key_len: usize = key.as_bytes().len();
            proof {
                assert(is_ascii_chars(key@));
                is_ascii_chars_encode_utf8(key@);
            }
            total = total.saturating_add(key_len).saturating_add(value_len);
            i += 1;
        }
        assert(self@.take(i as int) =~= self@);
        if total > Self::MAX_TOTAL_BYTES {
            return Err(ValidationError::MetadataTooLarge);
        }
        Ok(())
    }
}

/// The longest service name: one label of a domain name.
pub const MAX_SERVICE_NAME_LEN: usize = 63;

/// Whether `name` can name a service: a domain label in lower case.
pub open spec fn valid_service_name(name: Seq<char>) -> bool {
    &&& 1 <= name.len() <= MAX_SERVICE_NAME_LEN
    &&& forall|i: int| 0 <= i < name.len() ==> lower_or_digit(#[trigger] name[i]) || name[i] == '-'
    &&& name[0] != '-'
    &&& name.last() != '-'
}

/// Accepts exactly the names that can name a service.
pub fn validate_service_name(name: &str) -> (r: Result<(), ValidationError>)
    ensures
        match r {
            Ok(_) => valid_service_name(name@),
            Err(error) => !valid_service_name(name@) && error == ValidationError::InvalidServiceName,
        },
{
    let nc = chars_of(name);
    if nc.len() == 0 || nc.len() > MAX_SERVICE_NAME_LEN {
        return Err(ValidationError::InvalidServiceName);
    }
    let mut i: usize = 0;
    while i < nc.len()
        invariant
            nc@ == name@,
            i <= nc@.len(),
            forall|j: int|
                0 <= j < i ==> lower_or_digit(#[trigger] name@[j]) || name@[j] == '-',
        decreases nc@.len() - i,
    {
        let c: char = nc[i];
        let ok = ('a' <= c && c <= 'z') || ('0' <= c && c <= '9') || c == '-';
        if !ok {
            return Err(ValidationError::InvalidServiceName);
        }
        i += 1;
    }
    if nc[0] == '-' || nc[nc.len() - 1] == '-' {
        return Err(ValidationError::InvalidServiceName);
    }
    Ok(())
}

/// A service name is accepted exactly if it has from 1 to 63 characters, all of
/// them letters from a to z, digits or hyphens, with no hyphen at either end.
pub proof fn law_service_names(name: Seq<char>)
    ensures
        valid_service_name(name) <==> {
            &&& 1 <= name.len() <= 63
            &&& forall|i: int|
                0 <= i < name.len() ==> {
                    ||| 'a' <= #[trigger] name[i] <= 'z'
                    ||| '0' <= name[i] <= '9'
                    ||| name[i] == '-' && 0 < i < name.len() - 1
                }
        },
{
    if valid_service_name(name) {
        assert forall|i: int| 0 <= i < name.len() implies {
            ||| 'a' <= #[trigger] name[i] <= 'z'
            ||| '0' <= name[i] <= '9'
            ||| name[i] == '-' && 0 < i < name.len() - 1
        } by {
            assert(lower_or_digit(name[i]) || name[i] == '-');
            assert(name[0] != '-' && name[name.len() - 1] != '-');
        }
    }
}

/// Metadata is accepted exactly if it has at most 32 entries, every key has from
/// 1 to 64 characters that are letters from a to z, digits, hyphens, underscores
/// or dots, every value has at most 256 bytes, and all keys and values together
/// have at most 4096 bytes.
pub proof fn law_metadata_limits(entries: Seq<(Seq<char>, Seq<char>)>)
    ensures
        metadata_fault(entries) is None <==> {
            &&& entries.len() <= 32
            &&& forall|i: int|
                0 <= i < entries.len() ==> {
                    let key = (#[trigger] entries[i]).0;
                    &&& 1 <= key.len() <= 64
                    &&& encode_utf8(entries[i].1).len() <= 256
                    &&& forall|j: int|
                        0 <= j < key.len() ==> {
                            ||| 'a' <= #[trigger] key[j] <= 'z'
                            ||| '0' <= key[j] <= '9'
                            ||| key[j] == '-'
                            ||| key[j] == '_'
                            ||| key[j] == '.'
                        }
                }
            &&& total_bytes(entries) <= 4096
        },
{
    lemma_no_entry_fault(entries);
    if metadata_fault(entries) is None {
        assert forall|i: int| 0 <= i < entries.len() implies {
            let key = (#[trigger] entries[i]).0;
            &&& 1 <= key.len() <= 64
            &&& encode_utf8(entries[i].1).len() <= 256
            &&& forall|j: int|
                0 <= j < key.len() ==> {
                    ||| 'a' <= #[trigger] key[j] <= 'z'
                    ||| '0' <= key[j] <= '9'
                    ||| key[j] == '-'
                    ||| key[j] == '_'
                    ||| key[j] == '.'
                }
        } by {
            assert(entry_fault(entries[i]) is None);
            let key = entries[i].0;
            assert forall|j: int| 0 <= j < key.len() implies {
                ||| 'a' <= #[trigger] key[j] <= 'z'
                ||| '0' <= key[j] <= '9'
                ||| key[j] == '-'
                ||| key[j] == '_'
                ||| key[j] == '.'
            } by {
                assert(key_char(key[j]));
            }
        }
    }
    if entries.len() <= 32 && total_bytes(entries) <= 4096 && forall|i: int|
        0 <= i < entries.len() ==> {
            let key = (#[trigger] entries[i]).0;
            &&& 1 <= key.len() <= 64
            &&& encode_utf8(entries[i].1).len() <= 256
            &&& forall|j: int|
                0 <= j < key.len() ==> {
                    ||| 'a' <= #[trigger] key[j] <= 'z'
                    ||| '0' <= key[j] <= '9'
                    ||| key[j] == '-'
                    ||| key[j] == '_'
                    ||| key[j] == '.'
                }
        } {
        assert forall|i: int| 0 <= i < entries.len() implies entry_fault(
            #[trigger] entries[i],
        ) is None by {
            let key = entries[i].0;
            assert forall|j: int| 0 <= j < key.len() implies key_char(#[trigger] key[j]) by {}
        }
    }
}

proof fn lemma_no_entry_fault(entries: Seq<(Seq<char>, Seq<char>)>)
    ensures
        first_entry_fault(entries) is None <==> forall|i: int|
            0 <= i < entries.len() ==> entry_fault(#[trigger] entries[i]) is None,
    decreases entries.len(),
{
    if entries.len() > 0 {
        let before = entries.drop_last();
        lemma_no_entry_fault(before);
        if first_entry_fault(entries) is None {
            assert forall|i: int| 0 <= i < entries.len() implies entry_fault(
                #[trigger] entries[i],
            ) is None by {
                if i < before.len() {
                    assert(before[i] == entries[i]);
                }
            }
        } else if first_entry_fault(before) is Some {
            let i = choose|i: int|
                0 <= i < before.len() && !(entry_fault(#[trigger] before[i]) is None);
            assert(entries[i] == before[i]);
        } else {
            assert(entries[entries.len() - 1] == entries.last());
        }
    }
}

/// The size of metadata is that of its keys and values in bytes: an entry more
/// adds its own.
pub proof fn law_metadata_size(
    entries: Seq<(Seq<char>, Seq<char>)>,
    key: Seq<char>,
    value: Seq<char>,
)
    ensures
        total_bytes(seq![]) == 0,
        total_bytes(entries.push((key, value))) == total_bytes(entries) + encode_utf8(key).len()
            + encode_utf8(value).len(),
{
    assert(entries.push((key, value)).drop_last() =~= entries);
}

/// Too many entries are refused before anything else; then the first entry with
/// a fault is named, by its key before its value; the size is judged last.
pub proof fn law_first_metadata_fault_is_named(entries: Seq<(Seq<char>, Seq<char>)>, i: int)
    ensures
        entries.len() > 32 ==> metadata_fault(entries) == Some(
            ValidationFault::TooManyMetadataEntries,
        ),
        metadata_fault(entries) == Some(ValidationFault::TooManyMetadataEntries) ==> entries.len()
            > 32,
        entries.len() <= 32 && 0 <= i < entries.len() && (forall|j: int|
            0 <= j < i ==> entry_fault(#[trigger] entries[j]) is None) ==> {
            let (key, value) = entries[i];
            &&& !valid_key(key) ==> metadata_fault(entries) == Some(
                ValidationFault::InvalidMetadataKey(key),
            )
            &&& valid_key(key) && encode_utf8(value).len() > 256 ==> metadata_fault(entries)
                == Some(ValidationFault::MetadataValueTooLong(key))
        },
        entries.len() <= 32 && (forall|j: int|
            0 <= j < entries.len() ==> entry_fault(#[trigger] entries[j]) is None) && total_bytes(
            entries,
        ) > 4096 ==> metadata_fault(entries) == Some(ValidationFault::MetadataTooLarge),
{
    lemma_no_entry_fault(entries);
    lemma_entry_faults(entries);
    if entries.len() <= 32 && 0 <= i < entries.len() && (forall|j: int|
        0 <= j < i ==> entry_fault(#[trigger] entries[j]) is None) {
        let before = entries.take(i);
        lemma_no_entry_fault(before);
        assert(entries.take(i + 1).drop_last() =~= before);
        assert(entries.take(i + 1).last() == entries[i]);
        if entry_fault(entries[i]) is Some {
            assert(first_entry_fault(entries.take(i + 1)) == entry_fault(entries[i]));
            lemma_early_fault(entries, i + 1);
        }
    }
}

proof fn lemma_entry_faults(entries: Seq<(Seq<char>, Seq<char>)>)
    ensures
        first_entry_fault(entries) != Some(ValidationFault::TooManyMetadataEntries),
    decreases entries.len(),
{
    if entries.len() > 0 {
        lemma_entry_faults(entries.drop_last());
    }
}

} // verus!
