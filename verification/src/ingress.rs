//! Public HTTP and HTTPS ingress: which service a request is for, and what is
//! passed on to it.

use hyper::header::HeaderValue;
use hyper::HeaderMap;
use vstd::prelude::*;
use vstd::utf8::encode_utf8;
use crate::headers::{
    end_to_end, few_fields, field_text, has_host, header_fields, header_text,
    law_connection_fields_are_removed, law_other_fields_are_passed_on, lemma_host_is_lower,
    set_host, strip_hop_by_hop_headers, valid_value, HostError,
};
use crate::ids::ServiceId;
use crate::metadata::valid_service_name;
use crate::model::{text_view, Protocol};
use crate::relay::{
    directory_in_order, find_service_at_host, law_host_lookup, law_http_service_is_found, service_at_host,
    well_addressed,
};
use crate::state::{AppState, StateModel};
use crate::text::{chars_of, lower_char, lower_text, to_lower};

verus! {

/// Why a request cannot be passed on to a service.
#[derive(Clone, Copy, Debug, PartialEq, Eq, Structural)]
pub enum IngressError {
    MissingHost,
    NoService,
    InvalidHost,
    TooManyHeaders,
}

impl IngressError {
    /// The error as a text for people.
    pub fn message(&self) -> (r: String)
        ensures
            r@ == match self {
                IngressError::MissingHost => "HTTP request is missing a Host header"@,
                IngressError::NoService => "no HTTP service is registered for host"@,
                IngressError::InvalidHost => "invalid HTTP host"@,
                IngressError::TooManyHeaders => "too many HTTP headers"@,
            },
    {
        match self {
            IngressError::MissingHost => "HTTP request is missing a Host header".to_owned(),
            IngressError::NoService => "no HTTP service is registered for host".to_owned(),
            IngressError::InvalidHost => "invalid HTTP host".to_owned(),
            IngressError::TooManyHeaders => "too many HTTP headers".to_owned(),
        }
    }
}

/// A text without the dots at its end.
pub open spec fn without_dots(s: Seq<char>) -> Seq<char>
    decreases s.len(),
{
    if s.len() > 0 && s.last() == '.' {
        without_dots(s.drop_last())
    } else {
        s
    }
}

/// What precedes the first colon of a text; all of it where there is none.
pub open spec fn before_colon(s: Seq<char>) -> Seq<char> {
    match s.index_of_first(':') {
        Some(at) => s.take(at),
        None => s,
    }
}

/// The host name in what a request says of its host: without dots at the end,
/// without a port and in lower case.
pub open spec fn host_of(forwarded: Seq<char>) -> Seq<char> {
    lower_text(before_colon(without_dots(forwarded)))
}

proof fn lemma_before_colon(s: Seq<char>, n: int)
    requires
        0 <= n <= s.len(),
        forall|i: int| 0 <= i < n ==> #[trigger] s[i] != ':',
        n == s.len() || s[n] == ':',
    ensures
        before_colon(s) == s.take(n),
{
    s.index_of_first_ensures(':');
    if s.contains(':') {
        let at = s.index_of_first(':')->0;
        assert(s[at] == ':');
        if n < s.len() && n < at {
            assert(s[n] != ':');
        }
    } else {
        assert(s.take(n) =~= s);
        if n < s.len() {
            assert(s.contains(s[n]));
        }
    }
}

/// The host name in what a request says of its host.
pub fn host_name(forwarded: &str) -> (r: String)
    ensures
        r@ == host_of(forwarded@),
{
    let chars = chars_of(forwarded);
    let mut end: usize = chars.len();
    assert(chars@.take(end as int) =~= chars@);
    while end > 0 && chars[end - 1] == '.'
        invariant
            end <= chars@.len(),
            without_dots(chars@.take(end as int)) == without_dots(chars@),
        decreases end,
    {
        assert(chars@.take(end as int).drop_last() =~= chars@.take(end - 1));
        end -= 1;
    }
    let ghost plain = chars@.take(end as int);
    assert(plain == without_dots(forwarded@));
    let mut out = String::new();
    let mut i: usize = 0;
    while i < end && chars[i] != ':'
        invariant
            i <= end <= chars@.len(),
            plain == chars@.take(end as int),
            forall|j: int| 0 <= j < i ==> #[trigger] plain[j] != ':',
            out@ == lower_text(plain.take(i as int)),
        decreases end - i,
    {
        out.push(to_lower(chars[i]));
        assert(lower_text(plain.take(i + 1)) =~= lower_text(plain.take(i as int)).push(
            lower_char(plain[i as int]),
        ));
        i += 1;
    }
    proof {
        lemma_before_colon(plain, i as int);
    }
    out
}

/// What a request says of its host: its `Host` field, or else the authority of
/// its target.
pub open spec fn forwarded(
    fields: Map<Seq<char>, Seq<Seq<u8>>>,
    authority: Option<Seq<char>>,
) -> Option<Seq<char>> {
    match field_text(fields, "host"@) {
        Some(host) => Some(host),
        None => authority,
    }
}

/// What a request says of its host.
pub fn forwarded_host(headers: &HeaderMap<HeaderValue>, authority: Option<String>) -> (r: Option<
    String,
>)
    ensures
        text_view(r) == forwarded(header_fields(*headers), text_view(authority)),
{
    proof {
        lemma_host_is_lower();
    }
    match header_text(headers, "host") {
        Some(host) => Some(host),
        None => authority,
    }
}

/// The service that a request is for.
pub open spec fn selected(
    state: StateModel,
    protocol: Protocol,
    host: Option<Seq<char>>,
) -> Result<ServiceId, IngressError> {
    match host {
        None => Err(IngressError::MissingHost),
        Some(host) => match service_at_host(state.services, protocol, host_of(host)) {
            Some(id) => Ok(state.services[id].service_id),
            None => Err(IngressError::NoService),
        },
    }
}

/// Finds the service that a request is for, and hands back what the request
/// says of its host, which is passed on.
pub fn select_service(
    headers: &HeaderMap<HeaderValue>,
    authority: Option<String>,
    protocol: Protocol,
    state: &AppState,
) -> (r: Result<(ServiceId, String), IngressError>)
    ensures
        ({
            let host = forwarded(header_fields(*headers), text_view(authority));
            match r {
                Ok((id, forwarded)) => {
                    &&& selected(state@, protocol, host) == Ok::<_, IngressError>(id)
                    &&& host == Some(forwarded@)
                },
                Err(error) => selected(state@, protocol, host) == Err::<ServiceId, _>(error),
            }
        }),
{
    match forwarded_host(headers, authority) {
        None => Err(IngressError::MissingHost),
        Some(forwarded) => {
            let host = host_name(forwarded.as_str());
            match find_service_at_host(state, protocol, host.as_str()) {
                Some(id) => Ok((id, forwarded)),
                None => Err(IngressError::NoService),
            }
        },
    }
}

/// Makes the fields of a request fit for the service: the `Host` field is the
/// one that the visitor gave, and what belongs to the visitor's connection is
/// removed. Where the host cannot be set the fields stay as they were; it can
/// where it is there already, and where there are few fields and it can be the
/// value of one.
pub fn prepare_request_headers(headers: &mut HeaderMap<HeaderValue>, host: &str) -> (r: Result<
    (),
    IngressError,
>)
    ensures
        match r {
            Ok(_) => header_fields(*final(headers)) == end_to_end(
                header_fields(*old(headers)).insert("host"@, seq![encode_utf8(host@)]),
            ) && valid_value(host@),
            Err(error) => {
                &&& header_fields(*final(headers)) == header_fields(*old(headers))
                &&& error == if valid_value(host@) {
                    IngressError::TooManyHeaders
                } else {
                    IngressError::InvalidHost
                }
            },
        },
        has_host(header_fields(*old(headers)), host@) ==> r is Ok,
        few_fields(header_fields(*old(headers))) && valid_value(host@) ==> r is Ok,
{
    match set_host(headers, host) {
        Ok(()) => {
            strip_hop_by_hop_headers(headers);
            Ok(())
        },
        Err(HostError::Invalid) => Err(IngressError::InvalidHost),
        Err(HostError::NoRoom) => Err(IngressError::TooManyHeaders),
    }
}

/// The target of the request that is passed on: the path and query of the
/// visitor's, or the root.
pub fn origin_target(path_and_query: Option<String>) -> (r: String)
    ensures
        r@ == match text_view(path_and_query) {
            Some(target) => target,
            None => "/"@,
        },
{
    match path_and_query {
        Some(target) => target,
        None => "/".to_owned(),
    }
}

/// What a visitor is told when a request cannot be passed on: the status and
/// the text of the answer.
pub fn ingress_failure() -> (r: (u16, &'static str))
    ensures
        r.0 == 502,
        r.1@ == "service is unavailable"@,
{
    (502, "service is unavailable")
}

/// Whether a host name is in the form in which requests are compared: lower
/// case, without a port and without a dot at its end.
pub open spec fn plain_host(host: Seq<char>) -> bool {
    &&& forall|i: int| 0 <= i < host.len() ==> #[trigger] host[i] != ':' && !('A' <= host[i] <= 'Z')
    &&& host.len() > 0 ==> host.last() != '.'
}

/// A visitor may write a host name in any case, and may add a dot or a port.
pub proof fn law_host_forms(host: Seq<char>, written: Seq<char>, port: Seq<char>)
    requires
        plain_host(host),
        host.len() > 0,
        lower_text(written) == host,
        port.len() > 0 ==> port.last() != '.',
    ensures
        host_of(written) == host,
        host_of(written + "."@) == host,
        host_of(written + ":"@ + port) == host,
{
    reveal_strlit(".");
    reveal_strlit(":");
    assert(written.len() == host.len());
    assert forall|i: int| 0 <= i < written.len() implies #[trigger] written[i] != ':' by {
        assert(host[i] == lower_char(written[i]));
    }
    assert(host.last() == lower_char(written.last()));
    assert(without_dots(written) == written);
    lemma_before_colon(written, written.len() as int);
    assert(written.take(written.len() as int) =~= written);
    let dotted = written + "."@;
    assert(dotted.drop_last() =~= written);
    assert(without_dots(dotted) == without_dots(dotted.drop_last()));
    let with_port = written + ":"@ + port;
    assert(with_port.last() != '.');
    assert(without_dots(with_port) == with_port);
    lemma_before_colon(with_port, written.len() as int);
    assert(with_port.take(written.len() as int) =~= written);
}

/// A request for the public host name of a published HTTP or HTTPS service
/// reaches that service, in whatever form the visitor writes the name, provided
/// that the relay's domain is in plain form.
pub proof fn law_published_host_is_reached(state: StateModel, k: u128, host: Seq<char>)
    requires
        directory_in_order(state),
        state.services.contains_key(k),
        state.services[k].protocol != Protocol::Tcp,
        state.http_domain is Some,
        state.http_domain->0.len() > 0,
        plain_host(state.http_domain->0),
        state.services[k].public_host is Some,
        host_of(host) == state.services[k].public_host->0,
    ensures
        plain_host(state.services[k].public_host->0),
        selected(state, state.services[k].protocol, Some(host)) == Ok::<_, IngressError>(
            ServiceId(k),
        ),
{
    law_http_service_is_found(state, k);
    let service = state.services[k];
    let domain = state.http_domain->0;
    let public = service.public_host->0;
    assert(well_addressed(state, service));
    assert(valid_service_name(service.service_name));
    reveal_strlit(".");
    assert(public == service.service_name + "."@ + domain);
    assert forall|i: int| 0 <= i < public.len() implies #[trigger] public[i] != ':' && !('A'
        <= public[i] <= 'Z') by {
        let n = service.service_name.len();
        if i < n {
            assert(public[i] == service.service_name[i]);
        } else if i > n {
            assert(public[i] == domain[i - n - 1]);
        }
    }
    assert(public.last() == domain.last());
}

/// A request is for the host that its `Host` field names, where that is visible
/// ASCII, and else for the authority of its target.
pub proof fn law_host_field_comes_first(
    fields: Map<Seq<char>, Seq<Seq<u8>>>,
    authority: Option<Seq<char>>,
)
    ensures
        field_text(fields, "host"@) is Some ==> forwarded(fields, authority) == field_text(
            fields,
            "host"@,
        ),
        !fields.contains_key("host"@) ==> forwarded(fields, authority) == authority,
        field_text(fields, "host"@) is None ==> forwarded(fields, authority) == authority,
{
}

/// A host name is compared in lower case and without a port: there is neither a
/// colon nor a capital in it, and it is what the request begins with.
pub proof fn law_host_names_are_plain(forwarded: Seq<char>)
    ensures
        host_of(forwarded).len() <= forwarded.len(),
        forall|i: int|
            0 <= i < host_of(forwarded).len() ==> {
                &&& #[trigger] host_of(forwarded)[i] != ':'
                &&& !('A' <= host_of(forwarded)[i] <= 'Z')
                &&& host_of(forwarded)[i] == lower_char(forwarded[i])
            },
{
    lemma_without_dots(forwarded);
    let plain = without_dots(forwarded);
    plain.index_of_first_ensures(':');
    let host = before_colon(plain);
    assert forall|i: int| 0 <= i < host_of(forwarded).len() implies {
        &&& #[trigger] host_of(forwarded)[i] != ':'
        &&& !('A' <= host_of(forwarded)[i] <= 'Z')
        &&& host_of(forwarded)[i] == lower_char(forwarded[i])
    } by {
        assert(host[i] == plain[i]);
        assert(host_of(forwarded)[i] == lower_char(host[i]));
        if plain.contains(':') {
            assert(plain[i] != ':');
        } else if plain[i] == ':' {
            assert(plain.contains(plain[i]));
        }
    }
}

proof fn lemma_without_dots(s: Seq<char>)
    ensures
        without_dots(s).len() <= s.len(),
        without_dots(s) == s.take(without_dots(s).len() as int),
    decreases s.len(),
{
    if s.len() > 0 && s.last() == '.' {
        let shorter = s.drop_last();
        lemma_without_dots(shorter);
        assert(shorter.take(without_dots(s).len() as int) =~= s.take(without_dots(s).len() as int));
    } else {
        assert(s.take(s.len() as int) =~= s);
    }
}

/// A request without a host is refused as such; one with a host goes to the
/// service that is published there for its protocol, and is refused where there
/// is none.
pub proof fn law_request_goes_to_its_host(state: StateModel, protocol: Protocol, host: Seq<char>)
    ensures
        selected(state, protocol, None) == Err::<ServiceId, _>(IngressError::MissingHost),
        match selected(state, protocol, Some(host)) {
            Ok(id) => exists|k: u128| #[trigger]
                state.services.contains_key(k) && state.services[k].service_id == id
                    && state.services[k].protocol == protocol && state.services[k].public_host
                    == Some(host_of(host)),
            Err(error) => error == IngressError::NoService && forall|k: u128| #[trigger]
                state.services.contains_key(k) && state.services[k].protocol == protocol
                    ==> state.services[k].public_host != Some(host_of(host)),
        },
{
    match service_at_host(state.services, protocol, host_of(host)) {
        Some(id) => {
            law_host_lookup(state.services, protocol, host_of(host), id);
            assert(state.services.contains_key(id));
        },
        None => {
            assert forall|k: u128| #[trigger]
                state.services.contains_key(k) && state.services[k].protocol
                    == protocol implies state.services[k].public_host != Some(host_of(host)) by {
                law_host_lookup(state.services, protocol, host_of(host), k);
            }
        },
    }
}

/// A request without a `Connection` field is passed on with the host that it was
/// made for and with every field that does not belong to one connection, such
/// as its cookies, as it came.
pub proof fn law_request_is_passed_on(
    fields: Map<Seq<char>, Seq<Seq<u8>>>,
    host: Seq<u8>,
    name: Seq<char>,
)
    requires
        !fields.contains_key("connection"@),
    ensures
        ({
            let passed = end_to_end(fields.insert("host"@, seq![host]));
            &&& passed.contains_key("host"@)
            &&& passed["host"@] == seq![host]
            &&& name != "host"@ && passed.contains_key(name) ==> fields.contains_key(name)
                && passed[name] == fields[name]
            &&& fields.contains_key(name) && name != "host"@ && name != "keep-alive"@ && name
                != "proxy-authenticate"@ && name != "proxy-authorization"@ && name != "te"@ && name
                != "trailer"@ && name != "transfer-encoding"@ && name != "upgrade"@
                ==> passed.contains_key(name) && passed[name] == fields[name]
        }),
{
    reveal_strlit("host");
    reveal_strlit("connection");
    reveal_strlit("keep-alive");
    reveal_strlit("proxy-authenticate");
    reveal_strlit("proxy-authorization");
    reveal_strlit("te");
    reveal_strlit("trailer");
    reveal_strlit("transfer-encoding");
    reveal_strlit("upgrade");
    let with_host = fields.insert("host"@, seq![host]);
    assert("host"@.len() == 4);
    law_other_fields_are_passed_on(with_host, "host"@);
    law_connection_fields_are_removed(with_host);
    if name != "connection"@ && name != "keep-alive"@ && name != "proxy-authenticate"@ && name
        != "proxy-authorization"@ && name != "te"@ && name != "trailer"@ && name
        != "transfer-encoding"@ && name != "upgrade"@ {
        law_other_fields_are_passed_on(with_host, name);
    }
}

} // verus!
