//! HTTP header fields: reading them, and removing those that belong to one
//! connection only.

use hyper::header::HeaderValue;
use hyper::HeaderMap;
use vstd::prelude::*;
use vstd::utf8::{encode_utf8, is_ascii_chars, is_ascii_chars_encode_utf8};
use crate::model::text_view;
use crate::text::{chars_of, lower_char, lower_text, same_text, string_of};

verus! {

/// `hyper::HeaderMap`, the header fields of a request or a response.
#[verifier::external_type_specification]
#[verifier::external_body]
#[verifier::reject_recursive_types(T)]
pub struct ExHeaderMap<T>(hyper::HeaderMap<T>);

/// `hyper::header::HeaderValue`, the value of one field.
#[verifier::external_type_specification]
#[verifier::external_body]
pub struct ExHeaderValue(hyper::header::HeaderValue);

/// The fields that a header map holds: the bytes of the values of each name, in
/// the order in which they were added. Names are in lower case.
pub uninterp spec fn header_fields(headers: HeaderMap<HeaderValue>) -> Map<
    Seq<char>,
    Seq<Seq<u8>>,
>;

/// The bytes of a header value.
pub uninterp spec fn value_bytes(value: HeaderValue) -> Seq<u8>;

/// Whether a character may stand in a header name.
pub open spec fn name_char(c: char) -> bool {
    ||| 'a' <= c <= 'z'
    ||| 'A' <= c <= 'Z'
    ||| '0' <= c <= '9'
    ||| c == '!' || c == '#' || c == '$' || c == '%' || c == '&' || c == '\'' || c == '*'
    ||| c == '+' || c == '-' || c == '.' || c == '^' || c == '_' || c == '`' || c == '|'
    ||| c == '~'
}

/// The length of the longest header name.
pub const MAX_NAME_LEN: usize = 65535;

/// Whether a text is a header name.
pub open spec fn valid_name(text: Seq<char>) -> bool {
    &&& 1 <= text.len() <= MAX_NAME_LEN
    &&& forall|i: int| 0 <= i < text.len() ==> name_char(#[trigger] text[i])
}

/// `HeaderMap::get` finds the first value of a field by its name, without regard
/// to the case of ASCII letters. Nothing is said of a text that is no such name:
/// over HTTP/2 a field may come with a quotation mark in its name, and a look-up
/// by text does not find it.
#[verifier::external_body]
fn first_value<'a>(headers: &'a HeaderMap<HeaderValue>, name: &str) -> (r: Option<&'a HeaderValue>)
    requires
        valid_name(name@),
    ensures
        match r {
            Some(value) => {
                &&& header_fields(*headers).contains_key(lower_text(name@))
                &&& header_fields(*headers)[lower_text(name@)].len() > 0
                &&& value_bytes(*value) == header_fields(*headers)[lower_text(name@)][0]
            },
            None => !header_fields(*headers).contains_key(lower_text(name@)),
        },
{
    headers.get(name)
}

/// `HeaderMap::get_all` lists the values of a field, found by its name as by
/// `HeaderMap::get`, in the order in which they were added; there are none for a
/// field that is not there.
#[verifier::external_body]
fn all_values<'a>(headers: &'a HeaderMap<HeaderValue>, name: &str) -> (r: Vec<&'a HeaderValue>)
    requires
        valid_name(name@),
    ensures
        r@.map_values(|v: &HeaderValue| value_bytes(*v)) == (if header_fields(
            *headers,
        ).contains_key(lower_text(name@)) {
            header_fields(*headers)[lower_text(name@)]
        } else {
            Seq::empty()
        }),
{
    headers.get_all(name).iter().collect()
}

/// `HeaderMap::remove` removes a field, found by its name as by `HeaderMap::get`,
/// with all its values.
#[verifier::external_body]
fn remove_field(headers: &mut HeaderMap<HeaderValue>, name: &str)
    requires
        valid_name(name@),
    ensures
        header_fields(*final(headers)) == header_fields(*old(headers)).remove(lower_text(name@)),
{
    headers.remove(name);
}

/// With up to this many names a header map takes one more, whatever it has
/// allocated: a table of the largest size, 32768 slots, is not asked to grow
/// while there are fewer names than a fifth of that, and a smaller one can grow.
pub const SURE_NAMES: usize = 6553;

/// Whether fields are few enough for one more to be taken in any case.
pub open spec fn few_fields(fields: Map<Seq<char>, Seq<Seq<u8>>>) -> bool {
    fields.dom().finite() && fields.dom().len() <= SURE_NAMES
}

/// Whether `names` lists the names of these fields, each once.
pub open spec fn lists_names(
    names: Seq<Seq<char>>,
    fields: Map<Seq<char>, Seq<Seq<u8>>>,
) -> bool {
    names.no_duplicates() && names.to_set() == fields.dom()
}

/// Whether these fields have `n` names.
pub open spec fn has_names(fields: Map<Seq<char>, Seq<Seq<u8>>>, n: nat) -> bool {
    exists|names: Seq<Seq<char>>| #[trigger] lists_names(names, fields) && names.len() == n
}

/// `HeaderMap::keys_len` counts the names of a header map: they can be listed,
/// each once, in a list of that length.
#[verifier::external_body]
fn names_len(headers: &HeaderMap<HeaderValue>) -> (n: usize)
    ensures
        has_names(header_fields(*headers), n as nat),
{
    headers.keys_len()
}

/// Whether the fields are few enough for one more to be taken in any case.
pub fn has_few_fields(headers: &HeaderMap<HeaderValue>) -> (r: bool)
    ensures
        r == few_fields(header_fields(*headers)),
{
    let n: usize = names_len(headers);
    proof {
        let names = choose|names: Seq<Seq<char>>|
            #[trigger] lists_names(names, header_fields(*headers)) && names.len() == n;
        vstd::seq_lib::seq_to_set_is_finite(names);
        names.unique_seq_to_set();
    }
    n <= SURE_NAMES
}

/// `HeaderMap::try_insert` with the name `host` sets the field to one value. It
/// refuses only where the map would outgrow its largest size, and then the
/// fields stay as they were. With few fields it never does; with more it
/// depends on what the map has allocated, of which nothing is said.
#[verifier::external_body]
fn insert_host(headers: &mut HeaderMap<HeaderValue>, value: HeaderValue) -> (r: bool)
    ensures
        header_fields(*final(headers)) == (if r {
            header_fields(*old(headers)).insert("host"@, seq![value_bytes(value)])
        } else {
            header_fields(*old(headers))
        }),
        few_fields(header_fields(*old(headers))) ==> r,
{
    headers.try_insert(hyper::header::HOST, value).is_ok()
}

/// Whether a byte is visible ASCII, a space or a tab.
pub open spec fn visible_byte(b: u8) -> bool {
    32 <= b < 127 || b == 9
}

/// Whether all bytes are visible ASCII, spaces or tabs.
pub open spec fn visible(bytes: Seq<u8>) -> bool {
    forall|i: int| 0 <= i < bytes.len() ==> visible_byte(#[trigger] bytes[i])
}

/// ASCII bytes as characters.
pub open spec fn ascii_text(bytes: Seq<u8>) -> Seq<char> {
    bytes.map_values(|b: u8| b as char)
}

/// `HeaderValue::to_str` gives the text of a value all of whose bytes are
/// visible ASCII, spaces or tabs, and refuses any other.
#[verifier::external_body]
fn value_text(value: &HeaderValue) -> (r: Option<&str>)
    ensures
        r is Some <==> visible(value_bytes(*value)),
        r matches Some(text) ==> text@ == ascii_text(value_bytes(*value)),
{
    value.to_str().ok()
}

/// Whether a byte may stand in a header value.
pub open spec fn value_byte(b: u8) -> bool {
    b >= 32 && b != 127 || b == 9
}

/// Whether a text can be a header value.
pub open spec fn valid_value(text: Seq<char>) -> bool {
    forall|i: int|
        0 <= i < encode_utf8(text).len() ==> value_byte(#[trigger] encode_utf8(text)[i])
}

/// `HeaderValue::from_str` makes a value of the UTF-8 bytes of a text, unless
/// there is a control character other than a tab among them.
#[verifier::external_body]
fn text_value(text: &str) -> (r: Option<HeaderValue>)
    ensures
        r is Some <==> valid_value(text@),
        r matches Some(value) ==> value_bytes(value) == encode_utf8(text@),
{
    HeaderValue::from_str(text).ok()
}

/// Whether a text is a header name in lower case.
pub open spec fn plain_name(text: Seq<char>) -> bool {
    valid_name(text) && lower_text(text) == text
}

/// `HeaderName::from_bytes` reads a header name and puts it into lower case; it
/// refuses a text that is empty, too long or has other characters than letters,
/// digits and the marks that names may have.
#[verifier::external_body]
fn parse_name(text: &str) -> (r: Option<String>)
    ensures
        r is Some <==> valid_name(text@),
        r matches Some(name) ==> name@ == lower_text(text@),
{
    match hyper::header::HeaderName::from_bytes(text.as_bytes()) {
        Ok(name) => Some(name.as_str().to_owned()),
        Err(_) => None,
    }
}

/// The text of the first value of a field, where it is visible ASCII.
pub open spec fn field_text(
    fields: Map<Seq<char>, Seq<Seq<u8>>>,
    name: Seq<char>,
) -> Option<Seq<char>> {
    if fields.contains_key(name) && visible(fields[name][0]) {
        Some(ascii_text(fields[name][0]))
    } else {
        None
    }
}

/// The text of the first value of a field, where it is visible ASCII. The case
/// of the name does not matter, and a text that is no header name has no value.
pub fn header_text(headers: &HeaderMap<HeaderValue>, name: &str) -> (r: Option<String>)
    ensures
        text_view(r) == (if valid_name(name@) {
            field_text(header_fields(*headers), lower_text(name@))
        } else {
            None
        }),
{
    if parse_name(name).is_none() {
        return None;
    }
    match first_value(headers, name) {
        Some(value) => match value_text(value) {
            Some(text) => Some(text.to_owned()),
            None => None,
        },
        None => None,
    }
}

/// A space or a tab.
pub open spec fn blank(c: char) -> bool {
    c == ' ' || c == '\t'
}

/// Whether `text[from..to]` is what is left of `text[start..end]` without the
/// blanks at its two ends.
pub open spec fn is_trimmed(text: Seq<char>, start: int, end: int, from: int, to: int) -> bool {
    &&& start <= from <= to <= end
    &&& forall|i: int| start <= i < from ==> blank(#[trigger] text[i])
    &&& forall|i: int| to <= i < end ==> blank(#[trigger] text[i])
    &&& from < to ==> !blank(text[from]) && !blank(text[to - 1])
}

/// Whether `text[start..end]` stands between two commas, or between a comma and
/// an end of the text, with no comma in it.
pub open spec fn is_piece(text: Seq<char>, start: int, end: int) -> bool {
    &&& 0 <= start <= end <= text.len()
    &&& start == 0 || text[start - 1] == ','
    &&& end == text.len() || text[end] == ','
    &&& forall|i: int| start <= i < end ==> #[trigger] text[i] != ','
}

/// Whether a piece of the text without its blanks is the header name `name` in
/// some case.
pub open spec fn declares_at(
    text: Seq<char>,
    name: Seq<char>,
    start: int,
    end: int,
    from: int,
    to: int,
) -> bool {
    &&& is_piece(text, start, end)
    &&& is_trimmed(text, start, end, from, to)
    &&& valid_name(text.subrange(from, to))
    &&& lower_text(text.subrange(from, to)) == name
}

/// Whether the piece `text[start..end]` is the header name `name` in some case.
pub open spec fn piece_declares(text: Seq<char>, name: Seq<char>, start: int, end: int) -> bool {
    exists|from: int, to: int| declares_at(text, name, start, end, from, to)
}

/// Whether a comma-separated list of header names has the name `name`.
pub open spec fn declares(text: Seq<char>, name: Seq<char>) -> bool {
    exists|start: int, end: int| piece_declares(text, name, start, end)
}

/// Whether one of these values lists the name `name`. Values that are no
/// visible ASCII list nothing.
pub open spec fn some_value_declares(values: Seq<Seq<u8>>, name: Seq<char>) -> bool {
    exists|i: int|
        0 <= i < values.len() && visible(#[trigger] values[i]) && declares(
            ascii_text(values[i]),
            name,
        )
}

/// The fields that always belong to one connection only.
pub open spec fn standard_hop_name(name: Seq<char>) -> bool {
    ||| name == "connection"@
    ||| name == "keep-alive"@
    ||| name == "proxy-authenticate"@
    ||| name == "proxy-authorization"@
    ||| name == "te"@
    ||| name == "trailer"@
    ||| name == "transfer-encoding"@
    ||| name == "upgrade"@
}

/// Whether a field belongs to one connection only: one of the standard ones, or
/// one that a `Connection` field lists.
pub open spec fn hop_by_hop(fields: Map<Seq<char>, Seq<Seq<u8>>>, name: Seq<char>) -> bool {
    ||| standard_hop_name(name)
    ||| fields.contains_key("connection"@) && some_value_declares(fields["connection"@], name)
}

/// The fields that are passed on.
pub open spec fn end_to_end(fields: Map<Seq<char>, Seq<Seq<u8>>>) -> Map<
    Seq<char>,
    Seq<Seq<u8>>,
> {
    fields.remove_keys(Set::new(|name: Seq<char>| hop_by_hop(fields, name)))
}

/// What is left of a piece without its blanks is determined, unless it is empty.
proof fn lemma_trimmed_once(
    text: Seq<char>,
    start: int,
    end: int,
    from: int,
    to: int,
    from2: int,
    to2: int,
)
    requires
        is_trimmed(text, start, end, from, to),
        is_trimmed(text, start, end, from2, to2),
        from < to,
        from2 < to2,
    ensures
        from == from2,
        to == to2,
{
    assert(!blank(text[from]) && !blank(text[to - 1]));
    assert(!blank(text[from2]) && !blank(text[to2 - 1]));
    if from < from2 {
        assert(blank(text[from]));
    }
    if from2 < from {
        assert(blank(text[from2]));
    }
    if to < to2 {
        assert(blank(text[to2 - 1]));
    }
    if to2 < to {
        assert(blank(text[to - 1]));
    }
}

/// The header name that stands in one piece of a list, if there is one.
fn declared_name(chars: &Vec<char>, start: usize, end: usize) -> (r: Option<String>)
    requires
        is_piece(chars@, start as int, end as int),
    ensures
        match r {
            Some(name) => forall|n: Seq<char>| #[trigger]
                piece_declares(chars@, n, start as int, end as int) <==> n == name@,
            None => forall|n: Seq<char>|
                !#[trigger] piece_declares(chars@, n, start as int, end as int),
        },
{
    let mut from: usize = start;
    while from < end && (chars[from] == ' ' || chars[from] == '\t')
        invariant
            start <= from <= end <= chars@.len(),
            forall|i: int| start <= i < from ==> blank(#[trigger] chars@[i]),
        decreases end - from,
    {
        from += 1;
    }
    let mut to: usize = end;
    while to > from && (chars[to - 1] == ' ' || chars[to - 1] == '\t')
        invariant
            start <= from <= to <= end <= chars@.len(),
            forall|i: int| to <= i < end ==> blank(#[trigger] chars@[i]),
        decreases to,
    {
        to -= 1;
    }
    let piece = string_of(chars, from, to);
    let name = parse_name(piece.as_str());
    proof {
        let text = chars@;
        let (s, e) = (start as int, end as int);
        assert(from < to ==> is_trimmed(text, s, e, from as int, to as int));
        assert forall|n: Seq<char>, f: int, t: int| #[trigger]
            declares_at(text, n, s, e, f, t) implies f == from && t == to by {
            assert(f < t);
            if from == to {
                assert(blank(text[f]));
            } else {
                lemma_trimmed_once(text, s, e, from as int, to as int, f, t);
            }
        }
        if name is Some {
            assert(declares_at(text, name->0@, s, e, from as int, to as int));
        }
    }
    name
}

/// The names in `r` are those of `seen` and those that `text` lists in pieces
/// that end before `upto`.
pub open spec fn lists_declared(
    r: Seq<Seq<char>>,
    seen: Seq<Seq<char>>,
    text: Seq<char>,
    upto: int,
) -> bool {
    forall|n: Seq<char>| #[trigger]
        r.contains(n) <==> seen.contains(n) || exists|start: int, end: int|
            #[trigger] piece_declares(text, n, start, end) && end < upto
}

/// The views of a list of strings.
pub open spec fn views(strings: Seq<String>) -> Seq<Seq<char>> {
    strings.map_values(|s: String| s@)
}

proof fn lemma_push_view(strings: Seq<String>, more: String)
    ensures
        forall|n: Seq<char>| #[trigger]
            views(strings.push(more)).contains(n) <==> views(strings).contains(n) || n == more@,
{
    let before = views(strings);
    let after = views(strings.push(more));
    assert(after =~= before.push(more@));
    assert forall|n: Seq<char>| #[trigger] after.contains(n) <==> before.contains(n) || n
        == more@ by {
        if before.contains(n) {
            let i = choose|i: int| 0 <= i < before.len() && before[i] == n;
            assert(after[i] == n);
        }
        assert(after[before.len() as int] == more@);
    }
}

/// Adds to `names` the header names that a list has.
fn add_declared(names: &mut Vec<String>, list: &str)
    ensures
        forall|n: Seq<char>| #[trigger]
            views(final(names)@).contains(n) <==> views(old(names)@).contains(n) || declares(
                list@,
                n,
            ),
{
    let chars = chars_of(list);
    let ghost seen = views(names@);
    let mut start: usize = 0;
    let mut i: usize = 0;
    while i < chars.len()
        invariant
            chars@ == list@,
            start <= i <= chars@.len(),
            start == 0 || chars@[start - 1] == ',',
            forall|j: int| start <= j < i ==> #[trigger] chars@[j] != ',',
            lists_declared(views(names@), seen, list@, start as int),
        decreases chars@.len() - i,
    {
        if chars[i] == ',' {
            let ghost before = names@;
            let found = declared_name(&chars, start, i);
            if let Some(name) = found {
                proof {
                    lemma_push_view(before, name);
                }
                names.push(name);
            }
            proof {
                lemma_next_piece(
                    views(before),
                    views(names@),
                    seen,
                    list@,
                    start as int,
                    i as int,
                );
            }
            start = i + 1;
        }
        i += 1;
    }
    let ghost before = names@;
    let found = declared_name(&chars, start, i);
    if let Some(name) = found {
        proof {
            lemma_push_view(before, name);
        }
        names.push(name);
    }
    proof {
        lemma_next_piece(views(before), views(names@), seen, list@, start as int, i as int);
        assert forall|n: Seq<char>| #[trigger]
            views(names@).contains(n) <==> seen.contains(n) || declares(list@, n) by {
            if declares(list@, n) {
                let (s, e) = choose|s: int, e: int| piece_declares(list@, n, s, e);
                assert(piece_declares(list@, n, s, e) && e < i + 1);
            }
        }
    }
}

/// After the pieces that end before `start` comes the one from `start` to the
/// next comma, and no other.
proof fn lemma_next_piece(
    before: Seq<Seq<char>>,
    after: Seq<Seq<char>>,
    seen: Seq<Seq<char>>,
    text: Seq<char>,
    start: int,
    end: int,
)
    requires
        is_piece(text, start, end),
        lists_declared(before, seen, text, start),
        forall|n: Seq<char>| #[trigger]
            after.contains(n) <==> before.contains(n) || piece_declares(text, n, start, end),
    ensures
        lists_declared(after, seen, text, end + 1),
{
    assert forall|s: int, e: int| #[trigger]
        is_piece(text, s, e) && start <= e <= end implies s == start && e == end by {
        if e < end {
            assert(text[e] == ',');
        }
        if s < start {
            assert(text[start - 1] == ',');
        }
        if s > start {
            assert(text[s - 1] == ',');
        }
    }
    assert forall|n: Seq<char>| #[trigger]
        after.contains(n) <==> seen.contains(n) || exists|s: int, e: int|
            #[trigger] piece_declares(text, n, s, e) && e < end + 1 by {
        if after.contains(n) {
            if before.contains(n) && !seen.contains(n) {
                let (s, e) = choose|s: int, e: int| #[trigger]
                    piece_declares(text, n, s, e) && e < start;
                assert(piece_declares(text, n, s, e) && e < end + 1);
            }
        }
        if exists|s: int, e: int| #[trigger] piece_declares(text, n, s, e) && e < end + 1 {
            let (s, e) = choose|s: int, e: int| #[trigger]
                piece_declares(text, n, s, e) && e < end + 1;
            let (f, t) = choose|f: int, t: int| declares_at(text, n, s, e, f, t);
            assert(is_piece(text, s, e));
            if e < start {
                assert(before.contains(n));
            }
        }
        if seen.contains(n) {
            assert(before.contains(n));
        }
    }
}

/// Why a `Host` field cannot be set.
#[derive(Clone, Copy, Debug, PartialEq, Eq, Structural)]
pub enum HostError {
    /// The text cannot be a header value.
    Invalid,
    /// The map takes no more fields.
    NoRoom,
}

/// Whether `host` is the one value of the `Host` field.
pub open spec fn has_host(fields: Map<Seq<char>, Seq<Seq<u8>>>, host: Seq<char>) -> bool {
    &&& fields.contains_key("host"@)
    &&& fields["host"@].len() == 1
    &&& visible(fields["host"@][0])
    &&& ascii_text(fields["host"@][0]) == host
}

/// The name of the `Host` field is in lower case.
pub proof fn lemma_host_is_lower()
    ensures
        lower_text("host"@) == "host"@,
        valid_name("host"@),
{
    reveal_strlit("host");
    assert(lower_text("host"@) =~= "host"@);
}

/// Visible bytes are those of their text, and can be a header value.
proof fn lemma_visible_text(bytes: Seq<u8>)
    requires
        visible(bytes),
    ensures
        encode_utf8(ascii_text(bytes)) == bytes,
        valid_value(ascii_text(bytes)),
{
    let text = ascii_text(bytes);
    assert forall|i: int| 0 <= i < text.len() implies '\0' <= #[trigger] text[i] <= '\u{7f}' by {
        assert(visible_byte(bytes[i]));
    }
    assert(is_ascii_chars(text));
    is_ascii_chars_encode_utf8(text);
    assert forall|i: int| 0 <= i < bytes.len() implies encode_utf8(text)[i] == bytes[i] by {
        assert(visible_byte(bytes[i]));
        assert(text[i] as u8 == bytes[i]);
    }
    assert(encode_utf8(text) =~= bytes);
}

fn host_is_set(headers: &HeaderMap<HeaderValue>, host: &str) -> (r: bool)
    ensures
        r == has_host(header_fields(*headers), host@),
{
    proof {
        lemma_host_is_lower();
    }
    let values = all_values(headers, "host");
    let ghost bytes = values@.map_values(|v: &HeaderValue| value_bytes(*v));
    if values.len() != 1 {
        return false;
    }
    assert(bytes.len() == 1);
    assert(header_fields(*headers).contains_key("host"@));
    assert(header_fields(*headers)["host"@] == bytes);
    assert(bytes[0] == value_bytes(*values@[0]));
    match value_text(values[0]) {
        Some(text) => same_text(text, host),
        None => false,
    }
}

/// Makes `host` the one value of the `Host` field. Where the text cannot be a
/// value, or the map takes no more fields, the fields stay as they were. A field
/// that has this one value already needs no room, and where there are few fields
/// there is room.
pub fn set_host(headers: &mut HeaderMap<HeaderValue>, host: &str) -> (r: Result<(), HostError>)
    ensures
        r == Err::<(), _>(HostError::Invalid) <==> !valid_value(host@),
        has_host(header_fields(*old(headers)), host@) ==> r is Ok,
        few_fields(header_fields(*old(headers))) && valid_value(host@) ==> r is Ok,
        header_fields(*final(headers)) == (if r is Ok {
            header_fields(*old(headers)).insert("host"@, seq![encode_utf8(host@)])
        } else {
            header_fields(*old(headers))
        }),
{
    if host_is_set(headers, host) {
        proof {
            let fields = header_fields(*headers);
            lemma_visible_text(fields["host"@][0]);
            assert(fields["host"@] =~= seq![encode_utf8(host@)]);
            assert(fields.insert("host"@, seq![encode_utf8(host@)]) =~= fields);
        }
        return Ok(());
    }
    match text_value(host) {
        Some(value) => if insert_host(headers, value) {
            Ok(())
        } else {
            Err(HostError::NoRoom)
        },
        None => Err(HostError::Invalid),
    }
}

/// Removes the fields that belong to one connection only, so that the others
/// can be passed on.
pub fn strip_hop_by_hop_headers(headers: &mut HeaderMap<HeaderValue>)
    ensures
        header_fields(*final(headers)) == end_to_end(header_fields(*old(headers))),
{
    let ghost fields = header_fields(*headers);
    proof {
        lemma_standard_names_are_plain();
    }
    let mut names: Vec<String> = Vec::new();
    {
        let values = all_values(headers, "connection");
        let ghost bytes = values@.map_values(|v: &HeaderValue| value_bytes(*v));
        let mut i: usize = 0;
        while i < values.len()
            invariant
                i <= values@.len(),
                bytes == values@.map_values(|v: &HeaderValue| value_bytes(*v)),
                forall|n: Seq<char>| #[trigger]
                    views(names@).contains(n) <==> some_value_declares(bytes.take(i as int), n),
            decreases values@.len() - i,
        {
            let value = values[i];
            let ghost before = views(names@);
            let found = value_text(value);
            if let Some(text) = found {
                add_declared(&mut names, text);
            }
            proof {
                assert(bytes[i as int] == value_bytes(*value));
                assert forall|n: Seq<char>| #[trigger]
                    views(names@).contains(n) <==> some_value_declares(bytes.take(i + 1), n) by {
                    lemma_one_more_value(bytes, i as int, n);
                    assert(before.contains(n) <==> some_value_declares(bytes.take(i as int), n));
                }
            }
            i += 1;
        }
        assert(bytes.take(i as int) =~= bytes);
    }
    assert(forall|n: Seq<char>| #[trigger]
        views(names@).contains(n) <==> fields.contains_key("connection"@) && some_value_declares(
            fields["connection"@],
            n,
        ));
    proof {
        assert forall|n: Seq<char>| #[trigger] views(names@).contains(n) implies plain_name(n) by {
            lemma_declared_name(fields["connection"@], n);
        }
    }
    let ghost mut gone: Set<Seq<char>> = Set::empty();
    assert(fields.remove_keys(gone) =~= fields);
    let mut i: usize = 0;
    while i < names.len()
        invariant
            i <= names@.len(),
            header_fields(*headers) == fields.remove_keys(gone),
            forall|n: Seq<char>| #[trigger]
                gone.contains(n) <==> views(names@).take(i as int).contains(n),
            forall|n: Seq<char>| #[trigger] views(names@).contains(n) ==> plain_name(n),
        decreases names@.len() - i,
    {
        let ghost name = names@[i as int]@;
        assert(views(names@)[i as int] == name);
        assert(views(names@).contains(name));
        remove_field(headers, names[i].as_str());
        proof {
            assert(fields.remove_keys(gone).remove(name) =~= fields.remove_keys(gone.insert(name)));
            assert(views(names@).take(i + 1) =~= views(names@).take(i as int).push(name));
            assert forall|n: Seq<char>| #[trigger]
                gone.insert(name).contains(n) <==> views(names@).take(i + 1).contains(n) by {
                lemma_contains_push(views(names@).take(i as int), name, n);
            }
            gone = gone.insert(name);
        }
        i += 1;
    }
    assert(views(names@).take(i as int) =~= views(names@));
    remove_field(headers, "connection");
    remove_field(headers, "keep-alive");
    remove_field(headers, "proxy-authenticate");
    remove_field(headers, "proxy-authorization");
    remove_field(headers, "te");
    remove_field(headers, "trailer");
    remove_field(headers, "transfer-encoding");
    remove_field(headers, "upgrade");
    assert(header_fields(*headers) =~= end_to_end(fields));
}

proof fn lemma_contains_push(s: Seq<Seq<char>>, more: Seq<char>, n: Seq<char>)
    ensures
        s.push(more).contains(n) <==> s.contains(n) || n == more,
{
    if s.contains(n) {
        let i = choose|i: int| 0 <= i < s.len() && s[i] == n;
        assert(s.push(more)[i] == n);
    }
    assert(s.push(more)[s.len() as int] == more);
}

proof fn lemma_one_more_value(values: Seq<Seq<u8>>, i: int, n: Seq<char>)
    requires
        0 <= i < values.len(),
    ensures
        some_value_declares(values.take(i + 1), n) <==> some_value_declares(values.take(i), n) || (
        visible(values[i]) && declares(ascii_text(values[i]), n)),
{
    let shorter = values.take(i);
    let longer = values.take(i + 1);
    assert(longer[i] == values[i]);
    if some_value_declares(shorter, n) {
        let j = choose|j: int|
            0 <= j < shorter.len() && visible(#[trigger] shorter[j]) && declares(
                ascii_text(shorter[j]),
                n,
            );
        assert(longer[j] == shorter[j]);
    }
    if some_value_declares(longer, n) {
        let j = choose|j: int|
            0 <= j < longer.len() && visible(#[trigger] longer[j]) && declares(
                ascii_text(longer[j]),
                n,
            );
        if j < i {
            assert(shorter[j] == longer[j]);
        }
    }
}

/// A name that a list declares is a header name in lower case.
proof fn lemma_declared_name(values: Seq<Seq<u8>>, n: Seq<char>)
    requires
        some_value_declares(values, n),
    ensures
        plain_name(n),
{
    let i = choose|i: int|
        0 <= i < values.len() && visible(#[trigger] values[i]) && declares(
            ascii_text(values[i]),
            n,
        );
    let text = ascii_text(values[i]);
    let (start, end) = choose|start: int, end: int| piece_declares(text, n, start, end);
    let (from, to) = choose|from: int, to: int| declares_at(text, n, start, end, from, to);
    let name = text.subrange(from, to);
    assert(valid_name(name));
    assert forall|j: int| 0 <= j < n.len() implies name_char(#[trigger] n[j]) by {
        assert(n[j] == lower_char(name[j]));
        assert(name_char(name[j]));
    }
    assert(lower_text(n) =~= n);
}

proof fn lemma_standard_names_are_plain()
    ensures
        forall|name: Seq<char>| #[trigger] standard_hop_name(name) ==> plain_name(name),
        plain_name("connection"@),
        plain_name("keep-alive"@),
        plain_name("proxy-authenticate"@),
        plain_name("proxy-authorization"@),
        plain_name("te"@),
        plain_name("trailer"@),
        plain_name("transfer-encoding"@),
        plain_name("upgrade"@),
{
    reveal_strlit("connection");
    reveal_strlit("keep-alive");
    reveal_strlit("proxy-authenticate");
    reveal_strlit("proxy-authorization");
    reveal_strlit("te");
    reveal_strlit("trailer");
    reveal_strlit("transfer-encoding");
    reveal_strlit("upgrade");
    assert(lower_text("connection"@) =~= "connection"@);
    assert(lower_text("keep-alive"@) =~= "keep-alive"@);
    assert(lower_text("proxy-authenticate"@) =~= "proxy-authenticate"@);
    assert(lower_text("proxy-authorization"@) =~= "proxy-authorization"@);
    assert(lower_text("te"@) =~= "te"@);
    assert(lower_text("trailer"@) =~= "trailer"@);
    assert(lower_text("transfer-encoding"@) =~= "transfer-encoding"@);
    assert(lower_text("upgrade"@) =~= "upgrade"@);
}

/// After stripping no field is left that belongs to one connection only, and
/// every other field is left as it was.
pub proof fn law_strip_removes_hop_by_hop_only(
    fields: Map<Seq<char>, Seq<Seq<u8>>>,
    name: Seq<char>,
)
    ensures
        hop_by_hop(fields, name) ==> !end_to_end(fields).contains_key(name),
        !hop_by_hop(fields, name) ==> end_to_end(fields).contains_key(name) == fields.contains_key(
            name,
        ),
        !hop_by_hop(fields, name) && fields.contains_key(name) ==> end_to_end(fields)[name]
            == fields[name],
{
}

/// Stripping twice is the same as stripping once.
pub proof fn law_strip_twice(fields: Map<Seq<char>, Seq<Seq<u8>>>)
    ensures
        end_to_end(end_to_end(fields)) == end_to_end(fields),
{
    let once = end_to_end(fields);
    assert(hop_by_hop(fields, "connection"@));
    assert(end_to_end(once) =~= once) by {
        assert forall|name: Seq<char>| once.contains_key(name) implies !hop_by_hop(
            once,
            name,
        ) by {
            assert(!hop_by_hop(fields, name));
        }
    }
}

/// The eight fields that always belong to one connection are never passed on.
pub proof fn law_connection_fields_are_removed(fields: Map<Seq<char>, Seq<Seq<u8>>>)
    ensures
        !end_to_end(fields).contains_key("connection"@),
        !end_to_end(fields).contains_key("keep-alive"@),
        !end_to_end(fields).contains_key("proxy-authenticate"@),
        !end_to_end(fields).contains_key("proxy-authorization"@),
        !end_to_end(fields).contains_key("te"@),
        !end_to_end(fields).contains_key("trailer"@),
        !end_to_end(fields).contains_key("transfer-encoding"@),
        !end_to_end(fields).contains_key("upgrade"@),
{
}

/// Every other field is passed on with the values that it had, in their order,
/// unless its name stands in a `Connection` value; and nothing is added.
pub proof fn law_other_fields_are_passed_on(
    fields: Map<Seq<char>, Seq<Seq<u8>>>,
    name: Seq<char>,
)
    requires
        name != "connection"@,
        name != "keep-alive"@,
        name != "proxy-authenticate"@,
        name != "proxy-authorization"@,
        name != "te"@,
        name != "trailer"@,
        name != "transfer-encoding"@,
        name != "upgrade"@,
        fields.contains_key("connection"@) ==> forall|i: int, at: int|
            0 <= i < fields["connection"@].len() && 0 <= at && at + name.len()
                <= fields["connection"@][i].len() ==> lower_text(
                #[trigger] ascii_text(fields["connection"@][i]).subrange(at, at + name.len()),
            ) != name,
    ensures
        end_to_end(fields).contains_key(name) == fields.contains_key(name),
        fields.contains_key(name) ==> end_to_end(fields)[name] == fields[name],
{
    let values = fields["connection"@];
    if fields.contains_key("connection"@) && some_value_declares(values, name) {
        let i = choose|i: int|
            0 <= i < values.len() && visible(#[trigger] values[i]) && declares(
                ascii_text(values[i]),
                name,
            );
        let text = ascii_text(values[i]);
        let (start, end) = choose|start: int, end: int| piece_declares(text, name, start, end);
        let (from, to) = choose|from: int, to: int| declares_at(text, name, start, end, from, to);
        assert(to == from + name.len());
        assert(lower_text(ascii_text(values[i]).subrange(from, from + name.len())) == name);
    }
    assert(!hop_by_hop(fields, name));
}

/// A field that a visible `Connection` value lists is not passed on: its name,
/// in any case and with blanks around it, stands there between two commas or a
/// comma and an end of the value.
pub proof fn law_listed_field_is_removed(
    fields: Map<Seq<char>, Seq<Seq<u8>>>,
    i: int,
    start: int,
    from: int,
    to: int,
    end: int,
)
    requires
        fields.contains_key("connection"@),
        0 <= i < fields["connection"@].len(),
        forall|j: int|
            0 <= j < fields["connection"@][i].len() ==> 32 <= #[trigger] fields["connection"@][i][j]
                < 127 || fields["connection"@][i][j] == 9,
        0 <= start <= from < to <= end <= fields["connection"@][i].len(),
        to - from <= 65535,
        ({
            let text = ascii_text(fields["connection"@][i]);
            &&& start == 0 || text[start - 1] == ','
            &&& end == text.len() || text[end] == ','
            &&& forall|j: int|
                start <= j < from || to <= j < end ==> #[trigger] text[j] == ' ' || text[j] == '\t'
            &&& forall|j: int|
                from <= j < to ==> {
                    ||| 'a' <= #[trigger] text[j] <= 'z'
                    ||| 'A' <= text[j] <= 'Z'
                    ||| '0' <= text[j] <= '9'
                    ||| text[j] == '-'
                    ||| text[j] == '_'
                    ||| text[j] == '.'
                }
        }),
    ensures
        !end_to_end(fields).contains_key(
            lower_text(ascii_text(fields["connection"@][i]).subrange(from, to)),
        ),
{
    let values = fields["connection"@];
    let text = ascii_text(values[i]);
    let part = text.subrange(from, to);
    let name = lower_text(part);
    assert(visible(values[i]));
    assert forall|j: int| 0 <= j < part.len() implies name_char(#[trigger] part[j]) by {
        assert(part[j] == text[from + j]);
    }
    assert(valid_name(part));
    assert(declares_at(text, name, start, end, from, to));
    assert(piece_declares(text, name, start, end));
    assert(declares(text, name));
    assert(some_value_declares(values, name));
    assert(hop_by_hop(fields, name));
}

/// What is read of a field is the text of its first value, where that is
/// visible ASCII.
pub proof fn law_first_value_is_read(fields: Map<Seq<char>, Seq<Seq<u8>>>, name: Seq<char>)
    ensures
        match field_text(fields, name) {
            Some(text) => {
                &&& fields.contains_key(name)
                &&& text.len() == fields[name][0].len()
                &&& forall|i: int|
                    0 <= i < text.len() ==> #[trigger] text[i] == fields[name][0][i] as char && (32
                        <= fields[name][0][i] < 127 || fields[name][0][i] == 9)
            },
            None => fields.contains_key(name) ==> exists|i: int|
                0 <= i < fields[name][0].len() && !(32 <= #[trigger] fields[name][0][i] < 127
                    || fields[name][0][i] == 9),
        },
{
    if fields.contains_key(name) && visible(fields[name][0]) {
        let text = ascii_text(fields[name][0]);
        assert forall|i: int| 0 <= i < text.len() implies #[trigger] text[i]
            == fields[name][0][i] as char && (32 <= fields[name][0][i] < 127 || fields[name][0][i]
            == 9) by {
            assert(visible_byte(fields[name][0][i]));
        }
    }
}

} // verus!
