//! Settings of the relay server: where they come from and when they fit
//! together.

use vstd::prelude::*;
use vstd::utf8::encode_utf8;
use crate::model::{copy_text, text_view};
use crate::text::{
    chars_of, decimal, decimal_text, has_prefix, joined, same_text, string_of, strip_prefix,
};

verus! {

/// A socket address as a text. Addresses are compared by their texts, so whoever
/// makes one gives the text in which an address is usually written, of which
/// there is one for each address.
#[derive(Debug, PartialEq, Eq)]
pub struct SocketAddress {
    pub text: String,
}

/// The settings with which the server runs.
#[derive(Debug)]
pub struct RunOptions {
    pub tls_cert: String,
    pub tls_key: String,
    pub api_listen: SocketAddress,
    pub quic_listen: SocketAddress,
    pub tcp_tls_listen: SocketAddress,
    pub http_listen: Option<SocketAddress>,
    pub https_listen: Option<SocketAddress>,
    pub http_domain: Option<String>,
    pub public_host: String,
    pub tcp_port_start: u16,
    pub tcp_port_end: u16,
    pub admin_token: String,
    pub user_token: String,
    pub db_path: String,
}

/// Why settings do not fit together.
#[derive(Debug, PartialEq, Eq)]
pub enum OptionsError {
    PortRange,
    DomainRequired,
    InvalidDomain,
    /// Two listeners with this address.
    SameAddress(&'static str, &'static str, String),
}

/// `OptionsError` with its texts as sequences of characters.
pub enum OptionsFault {
    PortRange,
    DomainRequired,
    InvalidDomain,
    SameAddress(Seq<char>, Seq<char>, Seq<char>),
}

impl View for OptionsError {
    type V = OptionsFault;

    open spec fn view(&self) -> OptionsFault {
        match self {
            OptionsError::PortRange => OptionsFault::PortRange,
            OptionsError::DomainRequired => OptionsFault::DomainRequired,
            OptionsError::InvalidDomain => OptionsFault::InvalidDomain,
            OptionsError::SameAddress(left, right, address) => OptionsFault::SameAddress(
                left@,
                right@,
                address@,
            ),
        }
    }
}

impl OptionsError {
    /// The error as a text for people.
    pub fn message(&self) -> (r: String)
        ensures
            r@ == match self@ {
                OptionsFault::PortRange => "tcp port start must not exceed tcp port end"@,
                OptionsFault::DomainRequired =>
                    "--http-domain is required when --http-listen or --https-listen is configured"@,
                OptionsFault::InvalidDomain =>
                    "--http-domain must be a non-empty hostname without whitespace"@,
                OptionsFault::SameAddress(left, right, address) => left + " and "@ + right
                    + " listeners use the same TCP address "@ + address,
            },
    {
        match self {
            OptionsError::PortRange => "tcp port start must not exceed tcp port end".to_owned(),
            OptionsError::DomainRequired =>
                "--http-domain is required when --http-listen or --https-listen is configured".to_owned(),
            OptionsError::InvalidDomain =>
                "--http-domain must be a non-empty hostname without whitespace".to_owned(),
            OptionsError::SameAddress(left, right, address) => {
                let mut out = joined(left, " and ");
                out.append(right);
                out.append(" listeners use the same TCP address ");
                out.append(address.as_str());
                out
            },
        }
    }
}

/// The characters that count as white space.
pub open spec fn white_space(c: char) -> bool {
    ||| 9 <= c as u32 <= 13
    ||| c as u32 == 0x20 || c as u32 == 0x85 || c as u32 == 0xA0 || c as u32 == 0x1680
    ||| 0x2000 <= c as u32 <= 0x200A
    ||| c as u32 == 0x2028 || c as u32 == 0x2029 || c as u32 == 0x202F || c as u32 == 0x205F
    ||| c as u32 == 0x3000
}

/// Whether a character counts as white space.
pub fn is_white_space(c: char) -> (r: bool)
    ensures
        r == white_space(c),
{
    let n: u32 = c as u32;
    (9 <= n && n <= 13) || n == 0x20 || n == 0x85 || n == 0xA0 || n == 0x1680 || (0x2000 <= n && n
        <= 0x200A) || n == 0x2028 || n == 0x2029 || n == 0x202F || n == 0x205F || n == 0x3000
}

/// The longest domain name, in bytes.
pub const MAX_DOMAIN_LEN: usize = 253;

/// Whether a text can be the domain below which services are published.
pub open spec fn valid_domain(domain: Seq<char>) -> bool {
    &&& domain.len() > 0
    &&& encode_utf8(domain).len() <= MAX_DOMAIN_LEN
    &&& forall|i: int| 0 <= i < domain.len() ==> !white_space(#[trigger] domain[i])
}

fn domain_is_valid(domain: &str) -> (r: bool)
    ensures
        r == valid_domain(domain@),
{
    let chars = chars_of(domain);
    if chars.len() == 0 || domain.as_bytes().len() > MAX_DOMAIN_LEN {
        return false;
    }
    let mut i: usize = 0;
    while i < chars.len()
        invariant
            chars@ == domain@,
            i <= chars@.len(),
            forall|j: int| 0 <= j < i ==> !white_space(#[trigger] domain@[j]),
        decreases chars@.len() - i,
    {
        if is_white_space(chars[i]) {
            return false;
        }
        i += 1;
    }
    true
}

/// The address of a listener that may be missing.
pub open spec fn listen_text(address: Option<SocketAddress>) -> Option<Seq<char>> {
    match address {
        Some(address) => Some(address.text@),
        None => None,
    }
}

/// Whether two listeners get in each other's way: they have one address, and it
/// is not the one that stands for any address and any port.
pub open spec fn same_listener(left: Option<Seq<char>>, right: Option<Seq<char>>) -> bool {
    left is Some && left == right && left != Some("0.0.0.0:0"@)
}

/// The first two TCP listeners that get in each other's way, in the order API,
/// TCP/TLS, HTTP, HTTPS.
pub open spec fn listener_conflict(
    api: Option<Seq<char>>,
    tcp_tls: Option<Seq<char>>,
    http: Option<Seq<char>>,
    https: Option<Seq<char>>,
) -> Option<OptionsFault> {
    if same_listener(api, tcp_tls) {
        Some(OptionsFault::SameAddress("api"@, "tcp-tls"@, api->0))
    } else if same_listener(api, http) {
        Some(OptionsFault::SameAddress("api"@, "http"@, api->0))
    } else if same_listener(api, https) {
        Some(OptionsFault::SameAddress("api"@, "https"@, api->0))
    } else if same_listener(tcp_tls, http) {
        Some(OptionsFault::SameAddress("tcp-tls"@, "http"@, tcp_tls->0))
    } else if same_listener(tcp_tls, https) {
        Some(OptionsFault::SameAddress("tcp-tls"@, "https"@, tcp_tls->0))
    } else if same_listener(http, https) {
        Some(OptionsFault::SameAddress("http"@, "https"@, http->0))
    } else {
        None
    }
}

/// What is wrong with settings, if anything.
pub open spec fn options_fault(options: RunOptions) -> Option<OptionsFault> {
    if options.tcp_port_start > options.tcp_port_end {
        Some(OptionsFault::PortRange)
    } else if (options.http_listen is Some || options.https_listen is Some)
        != options.http_domain is Some {
        Some(OptionsFault::DomainRequired)
    } else if options.http_domain is Some && !valid_domain(options.http_domain->0@) {
        Some(OptionsFault::InvalidDomain)
    } else {
        listener_conflict(
            Some(options.api_listen.text@),
            Some(options.tcp_tls_listen.text@),
            listen_text(options.http_listen),
            listen_text(options.https_listen),
        )
    }
}

/// Whether `left` gets in the way of `right`.
fn is_same_listener(left: Option<&SocketAddress>, right: Option<&SocketAddress>) -> (r: bool)
    ensures
        r == same_listener(
            match left {
                Some(address) => Some(address.text@),
                None => None,
            },
            match right {
                Some(address) => Some(address.text@),
                None => None,
            },
        ),
{
    match (left, right) {
        (Some(left), Some(right)) => same_text(left.text.as_str(), right.text.as_str())
            && !same_text(left.text.as_str(), "0.0.0.0:0"),
        _ => false,
    }
}

fn check_pair(
    left_name: &'static str,
    left: Option<&SocketAddress>,
    right_name: &'static str,
    right: Option<&SocketAddress>,
) -> (r: Result<(), OptionsError>)
    ensures
        ({
            let l = match left {
                Some(address) => Some(address.text@),
                None => None,
            };
            let r2 = match right {
                Some(address) => Some(address.text@),
                None => None,
            };
            match r {
                Ok(_) => !same_listener(l, r2),
                Err(error) => same_listener(l, r2) && error@ == OptionsFault::SameAddress(
                    left_name@,
                    right_name@,
                    l->0,
                ),
            }
        }),
{
    if is_same_listener(left, right) {
        match left {
            Some(address) => Err(
                OptionsError::SameAddress(left_name, right_name, address.text.clone()),
            ),
            None => Ok(()),
        }
    } else {
        Ok(())
    }
}

fn optional(address: &Option<SocketAddress>) -> (r: Option<&SocketAddress>)
    ensures
        match r {
            Some(a) => *address is Some && *a == (*address)->0,
            None => *address is None,
        },
{
    match address {
        Some(address) => Some(address),
        None => None,
    }
}

/// Accepts exactly the settings that fit together.
pub fn validate_run_options(options: &RunOptions) -> (r: Result<(), OptionsError>)
    ensures
        match r {
            Ok(_) => options_fault(*options) is None,
            Err(error) => options_fault(*options) == Some(error@),
        },
{
    if options.tcp_port_start > options.tcp_port_end {
        return Err(OptionsError::PortRange);
    }
    if (options.http_listen.is_some() || options.https_listen.is_some())
        != options.http_domain.is_some() {
        return Err(OptionsError::DomainRequired);
    }
    if let Some(domain) = &options.http_domain {
        if !domain_is_valid(domain.as_str()) {
            return Err(OptionsError::InvalidDomain);
        }
    }
    let api = Some(&options.api_listen);
    let tcp_tls = Some(&options.tcp_tls_listen);
    let http = optional(&options.http_listen);
    let https = optional(&options.https_listen);
    if let Err(error) = check_pair("api", api, "tcp-tls", tcp_tls) {
        return Err(error);
    }
    if let Err(error) = check_pair("api", api, "http", http) {
        return Err(error);
    }
    if let Err(error) = check_pair("api", api, "https", https) {
        return Err(error);
    }
    if let Err(error) = check_pair("tcp-tls", tcp_tls, "http", http) {
        return Err(error);
    }
    if let Err(error) = check_pair("tcp-tls", tcp_tls, "https", https) {
        return Err(error);
    }
    check_pair("http", http, "https", https)
}

/// With settings that fit together no two TCP listeners share an address, but
/// for the one that stands for any address and any port.
pub proof fn law_accepted_listeners_differ(options: RunOptions)
    requires
        options_fault(options) is None,
    ensures
        ({
            let api = Some(options.api_listen.text@);
            let tcp_tls = Some(options.tcp_tls_listen.text@);
            let http = listen_text(options.http_listen);
            let https = listen_text(options.https_listen);
            &&& !same_listener(api, tcp_tls)
            &&& !same_listener(api, http)
            &&& !same_listener(api, https)
            &&& !same_listener(tcp_tls, http)
            &&& !same_listener(tcp_tls, https)
            &&& !same_listener(http, https)
            &&& options.tcp_port_start <= options.tcp_port_end
        }),
{
}

/// Where the path of the configuration file is given.
#[derive(Debug, PartialEq, Eq)]
pub enum ConfigSource {
    NotGiven,
    /// In the environment variable `ONGROK_CONFIG`.
    Environment,
    /// As the argument at this position.
    Argument(usize),
    /// Behind `--config=`.
    Inline(String),
}

/// `ConfigSource` with its text as a sequence of characters.
pub enum ConfigSourceModel {
    NotGiven,
    Environment,
    Argument(int),
    Inline(Seq<char>),
}

impl View for ConfigSource {
    type V = ConfigSourceModel;

    open spec fn view(&self) -> ConfigSourceModel {
        match self {
            ConfigSource::NotGiven => ConfigSourceModel::NotGiven,
            ConfigSource::Environment => ConfigSourceModel::Environment,
            ConfigSource::Argument(at) => ConfigSourceModel::Argument(*at as int),
            ConfigSource::Inline(path) => ConfigSourceModel::Inline(path@),
        }
    }
}

/// Where the arguments from `at` on give the path: what counts is the first of
/// them that is `--config`, followed by the path, or begins with `--config=`.
pub open spec fn source_in_arguments(arguments: Seq<String>, at: int) -> ConfigSourceModel
    decreases arguments.len() - at,
{
    if at < 0 || at >= arguments.len() {
        ConfigSourceModel::NotGiven
    } else if arguments[at]@ == "--config"@ {
        if at + 1 < arguments.len() {
            ConfigSourceModel::Argument(at + 1)
        } else {
            ConfigSourceModel::NotGiven
        }
    } else if has_prefix(arguments[at]@, "--config="@) {
        ConfigSourceModel::Inline(arguments[at]@.skip("--config="@.len() as int))
    } else {
        source_in_arguments(arguments, at + 1)
    }
}

/// Where the path of the configuration file is given: what the command line
/// says outweighs the environment.
pub open spec fn chosen_source(in_environment: bool, arguments: Seq<String>) -> ConfigSourceModel {
    let given = source_in_arguments(arguments, 0);
    if !(given is NotGiven) {
        given
    } else if in_environment {
        ConfigSourceModel::Environment
    } else {
        ConfigSourceModel::NotGiven
    }
}

/// Finds where the arguments give the path.
fn argument_source(arguments: &Vec<String>) -> (r: ConfigSource)
    ensures
        r@ == source_in_arguments(arguments@, 0),
{
    let mut at: usize = 0;
    while at < arguments.len()
        invariant
            at <= arguments@.len(),
            source_in_arguments(arguments@, 0) == source_in_arguments(arguments@, at as int),
        decreases arguments@.len() - at,
    {
        let argument = arguments[at].as_str();
        if same_text(argument, "--config") {
            return if at + 1 < arguments.len() {
                ConfigSource::Argument(at + 1)
            } else {
                ConfigSource::NotGiven
            };
        }
        if let Some(path) = strip_prefix(argument, "--config=") {
            return ConfigSource::Inline(path);
        }
        at += 1;
    }
    ConfigSource::NotGiven
}

/// Finds where the path of the configuration file is given: in the arguments,
/// of which the name of the program is not one, or else in the environment.
pub fn config_source(in_environment: bool, arguments: &Vec<String>) -> (r: ConfigSource)
    ensures
        r@ == chosen_source(in_environment, arguments@),
{
    match argument_source(arguments) {
        ConfigSource::NotGiven => if in_environment {
            ConfigSource::Environment
        } else {
            ConfigSource::NotGiven
        },
        given => given,
    }
}

/// The command line outweighs the environment: a path that the arguments give
/// is taken whether or not the environment gives one, and the environment
/// decides where they give none.
pub proof fn law_command_line_outweighs_environment(arguments: Seq<String>)
    ensures
        !(source_in_arguments(arguments, 0) is NotGiven) ==> chosen_source(true, arguments)
            == source_in_arguments(arguments, 0),
        source_in_arguments(arguments, 0) is NotGiven ==> chosen_source(true, arguments)
            == ConfigSourceModel::Environment,
        chosen_source(false, arguments) == source_in_arguments(arguments, 0),
{
}

/// What a configuration file says.
#[derive(Debug)]
pub struct ConfigFile {
    pub tls_cert: Option<String>,
    pub tls_key: Option<String>,
    pub api_listen: Option<String>,
    pub quic_listen: Option<String>,
    pub tcp_tls_listen: Option<String>,
    pub http_listen: Option<String>,
    pub https_listen: Option<String>,
    pub http_domain: Option<String>,
    pub public_host: Option<String>,
    pub tcp_port_start: Option<u16>,
    pub tcp_port_end: Option<u16>,
    pub admin_token: Option<String>,
    pub user_token: Option<String>,
    pub db_path: Option<String>,
}

/// The text of an optional number.
pub open spec fn number_text(number: Option<u16>) -> Option<Seq<char>> {
    match number {
        Some(number) => Some(decimal_text(number as nat)),
        None => None,
    }
}

/// What a configuration file says for each environment variable.
pub open spec fn settings(config: ConfigFile) -> Seq<(Seq<char>, Option<Seq<char>>)> {
    seq![
        ("ONGROK_TLS_CERT"@, text_view(config.tls_cert)),
        ("ONGROK_TLS_KEY"@, text_view(config.tls_key)),
        ("ONGROK_API_LISTEN"@, text_view(config.api_listen)),
        ("ONGROK_QUIC_LISTEN"@, text_view(config.quic_listen)),
        ("ONGROK_TCP_TLS_LISTEN"@, text_view(config.tcp_tls_listen)),
        ("ONGROK_HTTP_LISTEN"@, text_view(config.http_listen)),
        ("ONGROK_HTTPS_LISTEN"@, text_view(config.https_listen)),
        ("ONGROK_HTTP_DOMAIN"@, text_view(config.http_domain)),
        ("ONGROK_PUBLIC_HOST"@, text_view(config.public_host)),
        ("ONGROK_TCP_PORT_START"@, number_text(config.tcp_port_start)),
        ("ONGROK_TCP_PORT_END"@, number_text(config.tcp_port_end)),
        ("ONGROK_ADMIN_TOKEN"@, text_view(config.admin_token)),
        ("ONGROK_USER_TOKEN"@, text_view(config.user_token)),
        ("ONGROK_DB_PATH"@, text_view(config.db_path)),
    ]
}

/// Whether `names` has the name `name`.
pub open spec fn has_name(names: Seq<String>, name: Seq<char>) -> bool {
    exists|i: int| 0 <= i < names.len() && (#[trigger] names[i])@ == name
}

/// The settings that have a value and whose variable is not set, with their
/// values.
pub open spec fn missing(
    settings: Seq<(Seq<char>, Option<Seq<char>>)>,
    present: Seq<String>,
) -> Seq<(Seq<char>, Seq<char>)>
    decreases settings.len(),
{
    if settings.len() == 0 {
        seq![]
    } else {
        let (name, value) = settings.last();
        let before = missing(settings.drop_last(), present);
        if value is Some && !has_name(present, name) {
            before.push((name, value->0))
        } else {
            before
        }
    }
}

/// The views of pairs of texts.
pub open spec fn pair_views(pairs: Seq<(String, String)>) -> Seq<(Seq<char>, Seq<char>)> {
    pairs.map_values(|p: (String, String)| (p.0@, p.1@))
}

fn contains_name(names: &Vec<String>, name: &str) -> (r: bool)
    ensures
        r == has_name(names@, name@),
{
    let mut i: usize = 0;
    while i < names.len()
        invariant
            i <= names@.len(),
            forall|j: int| 0 <= j < i ==> (#[trigger] names@[j])@ != name@,
        decreases names@.len() - i,
    {
        if same_text(names[i].as_str(), name) {
            return true;
        }
        i += 1;
    }
    false
}

fn number(value: Option<u16>) -> (r: Option<String>)
    ensures
        text_view(r) == number_text(value),
{
    match value {
        Some(value) => Some(decimal(value as u64)),
        None => None,
    }
}

/// Whether `list` holds these settings.
spec fn lists_settings(
    list: Seq<(&'static str, Option<String>)>,
    settings: Seq<(Seq<char>, Option<Seq<char>>)>,
) -> bool {
    &&& list.len() == settings.len()
    &&& forall|i: int|
        0 <= i < list.len() ==> (#[trigger] list[i]).0@ == settings[i].0 && text_view(list[i].1)
            == settings[i].1
}

/// The environment variables with what a configuration file says for them.
fn named_settings(config: &ConfigFile) -> (r: [(&'static str, Option<String>); 14])
    ensures
        lists_settings(r@, settings(*config)),
{
    [
        ("ONGROK_TLS_CERT", copy_text(&config.tls_cert)),
        ("ONGROK_TLS_KEY", copy_text(&config.tls_key)),
        ("ONGROK_API_LISTEN", copy_text(&config.api_listen)),
        ("ONGROK_QUIC_LISTEN", copy_text(&config.quic_listen)),
        ("ONGROK_TCP_TLS_LISTEN", copy_text(&config.tcp_tls_listen)),
        ("ONGROK_HTTP_LISTEN", copy_text(&config.http_listen)),
        ("ONGROK_HTTPS_LISTEN", copy_text(&config.https_listen)),
        ("ONGROK_HTTP_DOMAIN", copy_text(&config.http_domain)),
        ("ONGROK_PUBLIC_HOST", copy_text(&config.public_host)),
        ("ONGROK_TCP_PORT_START", number(config.tcp_port_start)),
        ("ONGROK_TCP_PORT_END", number(config.tcp_port_end)),
        ("ONGROK_ADMIN_TOKEN", copy_text(&config.admin_token)),
        ("ONGROK_USER_TOKEN", copy_text(&config.user_token)),
        ("ONGROK_DB_PATH", copy_text(&config.db_path)),
    ]
}

/// The environment variables to set for a configuration file, with their
/// values: those that it speaks of and that are not among the `present` ones.
/// What the environment says outweighs the file.
pub fn environment_updates(config: &ConfigFile, present: &Vec<String>) -> (r: Vec<(String, String)>)
    ensures
        pair_views(r@) == missing(settings(*config), present@),
{
    let named = named_settings(config);
    let ghost all = settings(*config);
    let mut out: Vec<(String, String)> = Vec::new();
    assert(pair_views(out@) =~= missing(all.take(0), present@));
    let mut i: usize = 0;
    while i < named.len()
        invariant
            i <= named@.len(),
            lists_settings(named@, all),
            pair_views(out@) == missing(all.take(i as int), present@),
        decreases named@.len() - i,
    {
        let ghost before = out@;
        let (name, value) = &named[i];
        assert(all.take(i + 1).drop_last() =~= all.take(i as int));
        assert(all.take(i + 1).last() == all[i as int]);
        assert(all[i as int] == (name@, text_view(*value)));
        if let Some(value) = value {
            if !contains_name(present, name) {
                out.push(((*name).to_owned(), value.clone()));
                assert(pair_views(out@) =~= pair_views(before).push((name@, value@)));
            }
        }
        i += 1;
    }
    assert(all.take(i as int) =~= all);
    out
}

/// The environment outweighs the file: a variable that is set is never set
/// again, and every other one gets the value that the file gives it.
pub proof fn law_environment_outweighs_file(
    settings: Seq<(Seq<char>, Option<Seq<char>>)>,
    present: Seq<String>,
    name: Seq<char>,
    value: Seq<char>,
)
    ensures
        missing(settings, present).contains((name, value)) <==> settings.contains(
            (name, Some(value)),
        ) && !has_name(present, name),
    decreases settings.len(),
{
    if settings.len() > 0 {
        let before = settings.drop_last();
        law_environment_outweighs_file(before, present, name, value);
        let all = missing(settings, present);
        let some = missing(before, present);
        let last = settings.last();
        let wanted = (name, Some(value));
        assert(settings.contains(wanted) <==> before.contains(wanted) || last == wanted) by {
            if before.contains(wanted) {
                let i = choose|i: int| 0 <= i < before.len() && before[i] == wanted;
                assert(settings[i] == wanted);
            }
            if settings.contains(wanted) && last != wanted {
                let i = choose|i: int| 0 <= i < settings.len() && settings[i] == wanted;
                assert(before[i] == wanted);
            }
            assert(settings[settings.len() - 1] == last);
        }
        if last.1 is Some && !has_name(present, last.0) {
            let added = (last.0, last.1->0);
            assert(all == some.push(added));
            assert(all.contains((name, value)) <==> some.contains((name, value)) || added == (
                name,
                value,
            )) by {
                if some.contains((name, value)) {
                    let i = choose|i: int| 0 <= i < some.len() && some[i] == (name, value);
                    assert(all[i] == (name, value));
                }
                assert(all[some.len() as int] == added);
            }
        }
    }
}

/// A text without the white space at its front.
pub open spec fn trim_front(s: Seq<char>) -> Seq<char>
    decreases s.len(),
{
    if s.len() > 0 && white_space(s[0]) {
        trim_front(s.skip(1))
    } else {
        s
    }
}

/// A text without the white space at its end.
pub open spec fn trim_back(s: Seq<char>) -> Seq<char>
    decreases s.len(),
{
    if s.len() > 0 && white_space(s.last()) {
        trim_back(s.drop_last())
    } else {
        s
    }
}

/// A text without the white space at its two ends.
pub open spec fn trimmed(s: Seq<char>) -> Seq<char> {
    trim_back(trim_front(s))
}

/// The part of `chars[from..to]` that is left without the white space at its
/// two ends.
fn trim_range(chars: &Vec<char>, from: usize, to: usize) -> (r: (usize, usize))
    requires
        from <= to <= chars@.len(),
    ensures
        from <= r.0 <= r.1 <= to,
        chars@.subrange(r.0 as int, r.1 as int) == trimmed(
            chars@.subrange(from as int, to as int),
        ),
{
    let ghost whole = chars@.subrange(from as int, to as int);
    let mut start: usize = from;
    while start < to && is_white_space(chars[start])
        invariant
            from <= start <= to <= chars@.len(),
            trim_front(chars@.subrange(start as int, to as int)) == trim_front(whole),
        decreases to - start,
    {
        assert(chars@.subrange(start as int, to as int).skip(1) =~= chars@.subrange(
            start + 1,
            to as int,
        ));
        start += 1;
    }
    let ghost front = chars@.subrange(start as int, to as int);
    assert(front == trim_front(whole));
    let mut end: usize = to;
    while end > start && is_white_space(chars[end - 1])
        invariant
            start <= end <= to <= chars@.len(),
            trim_back(chars@.subrange(start as int, end as int)) == trim_back(front),
        decreases end,
    {
        assert(chars@.subrange(start as int, end as int).drop_last() =~= chars@.subrange(
            start as int,
            end - 1,
        ));
        end -= 1;
    }
    (start, end)
}

/// A text without the quotation marks around it, where it has a pair of them.
pub open spec fn unquoted(s: Seq<char>) -> Seq<char> {
    if s.len() >= 2 && s[0] == s.last() && (s[0] == '"' || s[0] == '\'') {
        s.subrange(1, s.len() - 1)
    } else {
        s
    }
}

/// What a line of an environment file sets: a name, an equals sign and a value,
/// with white space around each, and the value possibly in quotation marks.
/// Empty lines and lines that begin with a number sign set nothing.
pub open spec fn env_entry(line: Seq<char>) -> Option<(Seq<char>, Seq<char>)> {
    let text = trimmed(line);
    match text.index_of_first('=') {
        Some(at) => {
            let name = trimmed(text.subrange(0, at));
            if text[0] == '#' || name.len() == 0 {
                None
            } else {
                Some((name, unquoted(trimmed(text.subrange(at + 1, text.len() as int)))))
            }
        },
        None => None,
    }
}

/// What a line of an environment file sets.
pub fn parse_env_line(line: &str) -> (r: Option<(String, String)>)
    ensures
        match r {
            Some((name, value)) => env_entry(line@) == Some((name@, value@)),
            None => env_entry(line@) is None,
        },
{
    let all = chars_of(line);
    assert(all@.subrange(0, all@.len() as int) =~= all@);
    let (start, end) = trim_range(&all, 0, all.len());
    let trimmed_line = string_of(&all, start, end);
    let chars = chars_of(trimmed_line.as_str());
    let ghost text = trimmed(line@);
    assert(chars@ == text);
    let mut at: usize = 0;
    while at < chars.len() && chars[at] != '='
        invariant
            at <= chars@.len(),
            forall|j: int| 0 <= j < at ==> #[trigger] chars@[j] != '=',
        decreases chars@.len() - at,
    {
        at += 1;
    }
    proof {
        text.index_of_first_ensures('=');
        if at < chars@.len() {
            assert(text.contains(text[at as int]));
        }
    }
    if at == chars.len() {
        return None;
    }
    proof {
        let found = text.index_of_first('=')->0;
        if found < at {
            assert(chars@[found] != '=');
        }
        assert(found == at);
    }
    let (name_start, name_end) = trim_range(&chars, 0, at);
    if chars[0] == '#' || name_start == name_end {
        return None;
    }
    let name = string_of(&chars, name_start, name_end);
    let (value_start, value_end) = trim_range(&chars, at + 1, chars.len());
    let ghost value_text = chars@.subrange(value_start as int, value_end as int);
    let value = if value_end - value_start >= 2 && chars[value_start] == chars[value_end - 1] && (
    chars[value_start] == '"' || chars[value_start] == '\'') {
        assert(value_text.subrange(1, value_text.len() - 1) =~= chars@.subrange(
            value_start + 1,
            value_end - 1,
        ));
        string_of(&chars, value_start + 1, value_end - 1)
    } else {
        string_of(&chars, value_start, value_end)
    };
    Some((name, value))
}

/// Whether one of these pairs has the name `name`.
pub open spec fn names_pair(pairs: Seq<(Seq<char>, Seq<char>)>, name: Seq<char>) -> bool {
    exists|i: int| 0 <= i < pairs.len() && (#[trigger] pairs[i]).0 == name
}

/// What the lines of an environment file set, each name once and as it is set
/// first, without the variables that are set already.
pub open spec fn env_missing(lines: Seq<String>, present: Seq<String>) -> Seq<
    (Seq<char>, Seq<char>),
>
    decreases lines.len(),
{
    if lines.len() == 0 {
        seq![]
    } else {
        let before = env_missing(lines.drop_last(), present);
        match env_entry(lines.last()@) {
            Some(entry) => if has_name(present, entry.0) || names_pair(before, entry.0) {
                before
            } else {
                before.push(entry)
            },
            None => before,
        }
    }
}

/// The environment variables to set for an environment file, with their
/// values. What the environment says outweighs the file.
pub fn env_file_updates(lines: &Vec<String>, present: &Vec<String>) -> (r: Vec<(String, String)>)
    ensures
        pair_views(r@) == env_missing(lines@, present@),
{
    let mut out: Vec<(String, String)> = Vec::new();
    assert(pair_views(out@) =~= env_missing(lines@.take(0), present@));
    let mut i: usize = 0;
    while i < lines.len()
        invariant
            i <= lines@.len(),
            pair_views(out@) == env_missing(lines@.take(i as int), present@),
        decreases lines@.len() - i,
    {
        let ghost before = out@;
        assert(lines@.take(i + 1).drop_last() =~= lines@.take(i as int));
        if let Some((name, value)) = parse_env_line(lines[i].as_str()) {
            if !contains_name(present, name.as_str()) && !has_pair(&out, name.as_str()) {
                out.push((name, value));
                assert(pair_views(out@) =~= pair_views(before).push((name@, value@)));
            }
        }
        i += 1;
    }
    assert(lines@.take(i as int) =~= lines@);
    out
}

fn has_pair(pairs: &Vec<(String, String)>, name: &str) -> (r: bool)
    ensures
        r == names_pair(pair_views(pairs@), name@),
{
    let mut i: usize = 0;
    while i < pairs.len()
        invariant
            i <= pairs@.len(),
            forall|j: int| 0 <= j < i ==> (#[trigger] pair_views(pairs@)[j]).0 != name@,
        decreases pairs@.len() - i,
    {
        if same_text(pairs[i].0.as_str(), name) {
            assert(pair_views(pairs@)[i as int].0 == name@);
            return true;
        }
        i += 1;
    }
    false
}

/// An environment file never changes a variable that is set.
pub proof fn law_shell_outweighs_env_file(
    lines: Seq<String>,
    present: Seq<String>,
    name: Seq<char>,
)
    requires
        has_name(present, name),
    ensures
        !names_pair(env_missing(lines, present), name),
    decreases lines.len(),
{
    if lines.len() > 0 {
        law_shell_outweighs_env_file(lines.drop_last(), present, name);
        let before = env_missing(lines.drop_last(), present);
        let all = env_missing(lines, present);
        if names_pair(all, name) {
            let i = choose|i: int| 0 <= i < all.len() && (#[trigger] all[i]).0 == name;
            if i < before.len() {
                assert(before[i].0 == name);
            }
        }
    }
}

/// Every entry of a configuration file reaches its own variable, unless that is
/// set already.
pub proof fn law_file_entries_reach_their_variables(config: ConfigFile, present: Seq<String>)
    ensures
        config.tls_cert matches Some(value) ==> (missing(settings(config), present).contains(
            ("ONGROK_TLS_CERT"@, value@),
        ) <==> !has_name(present, "ONGROK_TLS_CERT"@)),
        config.tls_key matches Some(value) ==> (missing(settings(config), present).contains(
            ("ONGROK_TLS_KEY"@, value@),
        ) <==> !has_name(present, "ONGROK_TLS_KEY"@)),
        config.api_listen matches Some(value) ==> (missing(settings(config), present).contains(
            ("ONGROK_API_LISTEN"@, value@),
        ) <==> !has_name(present, "ONGROK_API_LISTEN"@)),
        config.quic_listen matches Some(value) ==> (missing(settings(config), present).contains(
            ("ONGROK_QUIC_LISTEN"@, value@),
        ) <==> !has_name(present, "ONGROK_QUIC_LISTEN"@)),
        config.tcp_tls_listen matches Some(value) ==> (missing(settings(config), present).contains(
            ("ONGROK_TCP_TLS_LISTEN"@, value@),
        ) <==> !has_name(present, "ONGROK_TCP_TLS_LISTEN"@)),
        config.http_listen matches Some(value) ==> (missing(settings(config), present).contains(
            ("ONGROK_HTTP_LISTEN"@, value@),
        ) <==> !has_name(present, "ONGROK_HTTP_LISTEN"@)),
        config.https_listen matches Some(value) ==> (missing(settings(config), present).contains(
            ("ONGROK_HTTPS_LISTEN"@, value@),
        ) <==> !has_name(present, "ONGROK_HTTPS_LISTEN"@)),
        config.http_domain matches Some(value) ==> (missing(settings(config), present).contains(
            ("ONGROK_HTTP_DOMAIN"@, value@),
        ) <==> !has_name(present, "ONGROK_HTTP_DOMAIN"@)),
        config.public_host matches Some(value) ==> (missing(settings(config), present).contains(
            ("ONGROK_PUBLIC_HOST"@, value@),
        ) <==> !has_name(present, "ONGROK_PUBLIC_HOST"@)),
        config.tcp_port_start matches Some(value) ==> (missing(settings(config), present).contains(
            ("ONGROK_TCP_PORT_START"@, decimal_text(value as nat)),
        ) <==> !has_name(present, "ONGROK_TCP_PORT_START"@)),
        config.tcp_port_end matches Some(value) ==> (missing(settings(config), present).contains(
            ("ONGROK_TCP_PORT_END"@, decimal_text(value as nat)),
        ) <==> !has_name(present, "ONGROK_TCP_PORT_END"@)),
        config.admin_token matches Some(value) ==> (missing(settings(config), present).contains(
            ("ONGROK_ADMIN_TOKEN"@, value@),
        ) <==> !has_name(present, "ONGROK_ADMIN_TOKEN"@)),
        config.user_token matches Some(value) ==> (missing(settings(config), present).contains(
            ("ONGROK_USER_TOKEN"@, value@),
        ) <==> !has_name(present, "ONGROK_USER_TOKEN"@)),
        config.db_path matches Some(value) ==> (missing(settings(config), present).contains(
            ("ONGROK_DB_PATH"@, value@),
        ) <==> !has_name(present, "ONGROK_DB_PATH"@)),
{
    let all = settings(config);
    if let Some(value) = config.tls_cert {
        assert(all[0] == ("ONGROK_TLS_CERT"@, Some(value@)));
        law_environment_outweighs_file(all, present, "ONGROK_TLS_CERT"@, value@);
    }
    if let Some(value) = config.tls_key {
        assert(all[1] == ("ONGROK_TLS_KEY"@, Some(value@)));
        law_environment_outweighs_file(all, present, "ONGROK_TLS_KEY"@, value@);
    }
    if let Some(value) = config.api_listen {
        assert(all[2] == ("ONGROK_API_LISTEN"@, Some(value@)));
        law_environment_outweighs_file(all, present, "ONGROK_API_LISTEN"@, value@);
    }
    if let Some(value) = config.quic_listen {
        assert(all[3] == ("ONGROK_QUIC_LISTEN"@, Some(value@)));
        law_environment_outweighs_file(all, present, "ONGROK_QUIC_LISTEN"@, value@);
    }
    if let Some(value) = config.tcp_tls_listen {
        assert(all[4] == ("ONGROK_TCP_TLS_LISTEN"@, Some(value@)));
        law_environment_outweighs_file(all, present, "ONGROK_TCP_TLS_LISTEN"@, value@);
    }
    if let Some(value) = config.http_listen {
        assert(all[5] == ("ONGROK_HTTP_LISTEN"@, Some(value@)));
        law_environment_outweighs_file(all, present, "ONGROK_HTTP_LISTEN"@, value@);
    }
    if let Some(value) = config.https_listen {
        assert(all[6] == ("ONGROK_HTTPS_LISTEN"@, Some(value@)));
        law_environment_outweighs_file(all, present, "ONGROK_HTTPS_LISTEN"@, value@);
    }
    if let Some(value) = config.http_domain {
        assert(all[7] == ("ONGROK_HTTP_DOMAIN"@, Some(value@)));
        law_environment_outweighs_file(all, present, "ONGROK_HTTP_DOMAIN"@, value@);
    }
    if let Some(value) = config.public_host {
        assert(all[8] == ("ONGROK_PUBLIC_HOST"@, Some(value@)));
        law_environment_outweighs_file(all, present, "ONGROK_PUBLIC_HOST"@, value@);
    }
    if let Some(value) = config.tcp_port_start {
        assert(all[9] == ("ONGROK_TCP_PORT_START"@, Some(decimal_text(value as nat))));
        law_environment_outweighs_file(all, present, "ONGROK_TCP_PORT_START"@, decimal_text(value as nat));
    }
    if let Some(value) = config.tcp_port_end {
        assert(all[10] == ("ONGROK_TCP_PORT_END"@, Some(decimal_text(value as nat))));
        law_environment_outweighs_file(all, present, "ONGROK_TCP_PORT_END"@, decimal_text(value as nat));
    }
    if let Some(value) = config.admin_token {
        assert(all[11] == ("ONGROK_ADMIN_TOKEN"@, Some(value@)));
        law_environment_outweighs_file(all, present, "ONGROK_ADMIN_TOKEN"@, value@);
    }
    if let Some(value) = config.user_token {
        assert(all[12] == ("ONGROK_USER_TOKEN"@, Some(value@)));
        law_environment_outweighs_file(all, present, "ONGROK_USER_TOKEN"@, value@);
    }
    if let Some(value) = config.db_path {
        assert(all[13] == ("ONGROK_DB_PATH"@, Some(value@)));
        law_environment_outweighs_file(all, present, "ONGROK_DB_PATH"@, value@);
    }
}

/// A configuration file sets nothing but what it says: a variable that is set
/// for it is that of one of its entries, and has the value of that entry.
pub proof fn law_file_sets_what_it_says(
    config: ConfigFile,
    present: Seq<String>,
    name: Seq<char>,
    value: Seq<char>,
)
    requires
        missing(settings(config), present).contains((name, value)),
    ensures
        ({
            ||| name == "ONGROK_TLS_CERT"@ && config.tls_cert is Some && value == config.tls_cert->0@
            ||| name == "ONGROK_TLS_KEY"@ && config.tls_key is Some && value == config.tls_key->0@
            ||| name == "ONGROK_API_LISTEN"@ && config.api_listen is Some && value == config.api_listen->0@
            ||| name == "ONGROK_QUIC_LISTEN"@ && config.quic_listen is Some && value == config.quic_listen->0@
            ||| name == "ONGROK_TCP_TLS_LISTEN"@ && config.tcp_tls_listen is Some && value == config.tcp_tls_listen->0@
            ||| name == "ONGROK_HTTP_LISTEN"@ && config.http_listen is Some && value == config.http_listen->0@
            ||| name == "ONGROK_HTTPS_LISTEN"@ && config.https_listen is Some && value == config.https_listen->0@
            ||| name == "ONGROK_HTTP_DOMAIN"@ && config.http_domain is Some && value == config.http_domain->0@
            ||| name == "ONGROK_PUBLIC_HOST"@ && config.public_host is Some && value == config.public_host->0@
            ||| name == "ONGROK_TCP_PORT_START"@ && config.tcp_port_start is Some && value == decimal_text(config.tcp_port_start->0 as nat)
            ||| name == "ONGROK_TCP_PORT_END"@ && config.tcp_port_end is Some && value == decimal_text(config.tcp_port_end->0 as nat)
            ||| name == "ONGROK_ADMIN_TOKEN"@ && config.admin_token is Some && value == config.admin_token->0@
            ||| name == "ONGROK_USER_TOKEN"@ && config.user_token is Some && value == config.user_token->0@
            ||| name == "ONGROK_DB_PATH"@ && config.db_path is Some && value == config.db_path->0@
        }),
{
    let all = settings(config);
    law_environment_outweighs_file(all, present, name, value);
    let i = choose|i: int| 0 <= i < all.len() && all[i] == (name, Some(value));
    assert(0 <= i < 14);
}

/// Settings are refused for a range of ports that is empty, and only then for
/// their ports.
pub proof fn law_port_range_is_checked(options: RunOptions)
    ensures
        options_fault(options) == Some(OptionsFault::PortRange) <==> options.tcp_port_start
            > options.tcp_port_end,
{
}

/// A domain is required exactly if there is an HTTP or HTTPS listener, and it
/// has to be a text of 1 to 253 bytes without white space.
pub proof fn law_domain_is_checked(options: RunOptions)
    requires
        options.tcp_port_start <= options.tcp_port_end,
    ensures
        ({
            let listens = options.http_listen is Some || options.https_listen is Some;
            &&& options_fault(options) == Some(OptionsFault::DomainRequired) <==> listens != (
            options.http_domain is Some)
            &&& listens && options.http_domain is Some ==> {
                let domain = options.http_domain->0@;
                let fits = {
                    &&& domain.len() > 0
                    &&& encode_utf8(domain).len() <= 253
                    &&& forall|i: int| 0 <= i < domain.len() ==> !white_space(#[trigger] domain[i])
                };
                options_fault(options) == Some(OptionsFault::InvalidDomain) <==> !fits
            }
        }),
{
}

/// Settings that fit together are accepted: a range of ports, a domain where it
/// is needed and there alone, and TCP listeners of which no two have the same
/// address, unless that is the one that stands for any address and any port.
/// The address for QUIC may be that of any other listener.
pub proof fn law_fitting_options_are_accepted(options: RunOptions)
    requires
        options.tcp_port_start <= options.tcp_port_end,
        (options.http_listen is Some || options.https_listen is Some) == (options.http_domain
            is Some),
        options.http_domain matches Some(domain) ==> {
            &&& domain@.len() > 0
            &&& encode_utf8(domain@).len() <= 253
            &&& forall|i: int| 0 <= i < domain@.len() ==> !white_space(#[trigger] domain@[i])
        },
        options.api_listen.text@ != options.tcp_tls_listen.text@ || options.api_listen.text@
            == "0.0.0.0:0"@,
        options.http_listen matches Some(http) ==> {
            ||| http.text@ == "0.0.0.0:0"@
            ||| http.text@ != options.api_listen.text@ && http.text@
                != options.tcp_tls_listen.text@
        },
        options.https_listen matches Some(https) ==> {
            ||| https.text@ == "0.0.0.0:0"@
            ||| https.text@ != options.api_listen.text@ && https.text@
                != options.tcp_tls_listen.text@ && (options.http_listen matches Some(http)
                ==> https.text@ != http.text@)
        },
    ensures
        options_fault(options) is None,
{
}

/// Two TCP listeners with one address are refused, and the refusal names the
/// two and the address.
pub proof fn law_shared_addresses_are_refused(options: RunOptions)
    ensures
        options_fault(options) matches Some(OptionsFault::SameAddress(left, right, address)) ==> {
            let api = options.api_listen.text@;
            let tcp_tls = options.tcp_tls_listen.text@;
            let http = options.http_listen->0.text@;
            let https = options.https_listen->0.text@;
            &&& address != "0.0.0.0:0"@
            &&& {
                ||| left == "api"@ && right == "tcp-tls"@ && address == api && address == tcp_tls
                ||| left == "api"@ && right == "http"@ && address == api && address == http
                ||| left == "api"@ && right == "https"@ && address == api && address == https
                ||| left == "tcp-tls"@ && right == "http"@ && address == tcp_tls && address == http
                ||| left == "tcp-tls"@ && right == "https"@ && address == tcp_tls && address
                    == https
                ||| left == "http"@ && right == "https"@ && address == http && address == https
            }
        },
{
}

/// The first argument that names a configuration file counts: `--config` with
/// the path behind it, or `--config=` with the path in it. Where no argument
/// does, none is given on the command line.
pub proof fn law_first_config_argument_counts(arguments: Seq<String>, at: int)
    requires
        0 <= at <= arguments.len(),
        forall|i: int|
            0 <= i < at ==> (#[trigger] arguments[i])@ != "--config"@ && !has_prefix(
                arguments[i]@,
                "--config="@,
            ),
    ensures
        at == arguments.len() ==> source_in_arguments(arguments, 0) is NotGiven,
        at + 1 < arguments.len() && arguments[at]@ == "--config"@ ==> source_in_arguments(
            arguments,
            0,
        ) == ConfigSourceModel::Argument(at + 1),
        at + 1 == arguments.len() && arguments[at]@ == "--config"@ ==> source_in_arguments(
            arguments,
            0,
        ) is NotGiven,
        forall|path: Seq<char>|
            at < arguments.len() && arguments[at]@ == #[trigger] ("--config="@ + path)
                ==> source_in_arguments(arguments, 0) == ConfigSourceModel::Inline(path),
{
    lemma_skipped_arguments(arguments, at, 0);
    reveal_strlit("--config");
    reveal_strlit("--config=");
    assert forall|path: Seq<char>|
        at < arguments.len() && arguments[at]@ == #[trigger] (
        "--config="@ + path) implies source_in_arguments(arguments, 0)
        == ConfigSourceModel::Inline(path) by {
        let text = "--config="@ + path;
        assert(text.take(9) =~= "--config="@);
        assert(text.skip(9) =~= path);
        assert(text.len() >= 9);
    }
}

proof fn lemma_skipped_arguments(arguments: Seq<String>, at: int, from: int)
    requires
        0 <= from <= at <= arguments.len(),
        forall|i: int|
            0 <= i < at ==> (#[trigger] arguments[i])@ != "--config"@ && !has_prefix(
                arguments[i]@,
                "--config="@,
            ),
    ensures
        source_in_arguments(arguments, from) == source_in_arguments(arguments, at),
    decreases at - from,
{
    if from < at {
        assert(arguments[from]@ != "--config"@);
        lemma_skipped_arguments(arguments, at, from + 1);
    }
}

proof fn lemma_trimmed_is_itself(s: Seq<char>)
    requires
        s.len() > 0 ==> !white_space(s[0]) && !white_space(s.last()),
    ensures
        trimmed(s) == s,
{
}

/// A line of a name, an equals sign and a value sets that name to that value,
/// which may stand in quotation marks; a line that begins with a number sign
/// sets nothing.
pub proof fn law_lines_set_names(name: Seq<char>, value: Seq<char>, comment: Seq<char>)
    requires
        name.len() > 0,
        !white_space(name[0]),
        !white_space(name.last()),
        name[0] != '#',
        !name.contains('='),
        value.len() > 0 ==> !white_space(value[0]) && !white_space(value.last()),
        value.len() > 0 ==> value[0] != '"' && value[0] != '\'',
    ensures
        env_entry(name + "="@ + value) == Some((name, value)),
        env_entry(name + "="@ + "\""@ + value + "\""@) == Some((name, value)),
        env_entry("#"@ + comment) is None,
        env_entry(name) is None,
        env_entry(seq![]) is None,
{
    reveal_strlit("=");
    reveal_strlit("\"");
    reveal_strlit("#");
    let plain = name + "="@ + value;
    lemma_line_is_split(name, value);
    let quoted = "\""@ + value + "\""@;
    assert(name + "="@ + "\""@ + value + "\""@ =~= name + "="@ + quoted);
    assert(quoted[0] == '"' && quoted.last() == '"');
    lemma_line_is_split(name, quoted);
    assert(quoted.subrange(1, quoted.len() - 1) =~= value);
    if value.len() >= 1 {
        assert(unquoted(value) == value);
    }
    let remark = "#"@ + comment;
    assert(remark[0] == '#');
    assert(trim_front(remark) == remark);
    lemma_trim_back_keeps_front(remark);
    lemma_trimmed_is_itself(name);
    name.index_of_first_ensures('=');
    Seq::<char>::empty().index_of_first_ensures('=');
    trimmed(remark).index_of_first_ensures('=');
}

proof fn lemma_trim_back_keeps_front(s: Seq<char>)
    requires
        s.len() > 0,
        !white_space(s[0]),
    ensures
        trim_back(s).len() > 0,
        trim_back(s)[0] == s[0],
    decreases s.len(),
{
    if white_space(s.last()) {
        assert(s.len() > 1);
        lemma_trim_back_keeps_front(s.drop_last());
    }
}

proof fn lemma_line_is_split(name: Seq<char>, value: Seq<char>)
    requires
        name.len() > 0,
        !white_space(name[0]),
        !white_space(name.last()),
        name[0] != '#',
        !name.contains('='),
        value.len() > 0 ==> !white_space(value[0]) && !white_space(value.last()),
    ensures
        env_entry(name + "="@ + value) == Some((name, unquoted(value))),
{
    reveal_strlit("=");
    let line = name + "="@ + value;
    let at = name.len() as int;
    assert(line[0] == name[0]);
    assert(line[at] == '=');
    assert(line.last() == if value.len() > 0 {
        value.last()
    } else {
        '='
    });
    assert(!white_space('='));
    lemma_trimmed_is_itself(line);
    line.index_of_first_ensures('=');
    assert(line.contains(line[at]));
    let found = line.index_of_first('=')->0;
    assert(line[found] == '=');
    if found < at {
        assert(line[found] == name[found]);
        assert(name.contains(name[found]));
    }
    assert(found == at);
    assert(line.subrange(0, at) =~= name);
    assert(line.subrange(at + 1, line.len() as int) =~= value);
    lemma_trimmed_is_itself(name);
    lemma_trimmed_is_itself(value);
}

/// White space around a line, and around the name and the value, does not
/// count.
pub proof fn law_white_space_around_a_line_does_not_count(s: Seq<char>, c: char)
    requires
        white_space(c),
    ensures
        trimmed(seq![c] + s) == trimmed(s),
        env_entry(seq![c] + s) == env_entry(s),
{
    assert((seq![c] + s).skip(1) =~= s);
}

/// A line of an environment file counts if its name is neither set already nor
/// set by an earlier line; then the name gets the value of that line. Other
/// names are set as the lines before say.
pub proof fn law_first_line_of_a_name_counts(
    lines: Seq<String>,
    line: String,
    present: Seq<String>,
)
    ensures
        ({
            let before = env_missing(lines, present);
            let after = env_missing(lines.push(line), present);
            match env_entry(line@) {
                None => after == before,
                Some((name, value)) => {
                    &&& has_name(present, name) || names_pair(before, name) ==> after == before
                    &&& !has_name(present, name) && !names_pair(before, name) ==> after
                        == before.push((name, value))
                },
            }
        }),
        env_missing(seq![], present) == Seq::<(Seq<char>, Seq<char>)>::empty(),
{
    assert(lines.push(line).drop_last() =~= lines);
}

/// A variable is set exactly if its name is among those of the environment, and
/// a file sets a name exactly if it is among those of its pairs.
pub proof fn law_names_are_compared_exactly(
    names: Seq<String>,
    pairs: Seq<(Seq<char>, Seq<char>)>,
    name: Seq<char>,
    i: int,
)
    ensures
        0 <= i < names.len() && names[i]@ == name ==> has_name(names, name),
        has_name(names, name) ==> exists|j: int| 0 <= j < names.len() && (#[trigger] names[j])@ == name,
        0 <= i < pairs.len() && pairs[i].0 == name ==> names_pair(pairs, name),
        names_pair(pairs, name) ==> exists|j: int|
            0 <= j < pairs.len() && (#[trigger] pairs[j]).0 == name,
{
}

/// A value may stand in single quotation marks as well as in double ones, and
/// is taken as it is where the marks at its ends are not a pair.
pub proof fn law_quotation_marks_come_in_pairs(value: Seq<char>, mark: char)
    ensures
        mark == '"' || mark == '\'' ==> unquoted(seq![mark] + value + seq![mark]) == value,
        value.len() < 2 || value[0] != value.last() || value[0] != '"' && value[0] != '\''
            ==> unquoted(value) == value,
{
    let quoted = seq![mark] + value + seq![mark];
    assert(quoted.subrange(1, quoted.len() - 1) =~= value);
    assert(quoted.last() == mark);
}

/// White space at the end of a line does not count.
pub proof fn law_white_space_behind_a_line_does_not_count(s: Seq<char>, c: char)
    requires
        white_space(c),
    ensures
        trimmed(s.push(c)) == trimmed(s),
        env_entry(s.push(c)) == env_entry(s),
    decreases s.len(),
{
    let longer = s.push(c);
    if s.len() > 0 && white_space(s[0]) {
        law_white_space_behind_a_line_does_not_count(s.skip(1), c);
        assert(longer.skip(1) =~= s.skip(1).push(c));
    } else if s.len() > 0 {
        assert(longer.drop_last() =~= s);
    } else {
        assert(longer.skip(1) =~= s);
    }
}

} // verus!
