//! Typed mapping destinations: addresses, aliases, HTTP upstreams and peer services.

use vstd::prelude::*;
use vstd::string::*;

use crate::address::{
    address_text, address_value, ipv6_text, ipv6_value, parse_address, parse_ipv6, IpAddress,
    IpAddressView,
};
use crate::name::{
    canonical_name, name_error_text, name_of, RemapName, RemapNameError, RemapNameErrorView,
};
use crate::text::{
    all_digits, begins, chars, concat3, copy, decimal, decimal_value, find_char, find_text,
    first_index, first_match, from, is_alphanumeric, is_digit, is_lower, lemma_decimal,
    lemma_first_index, lemma_first_match, lemma_first_match_is, lowercase, lowered, number_text,
    read_number, same, slice, without_prefix,
};

verus! {

/// Supported upstream HTTP schemes.
#[derive(Debug, Clone, Copy, PartialEq, Eq, Hash, Structural)]
pub enum HttpScheme {
    /// Cleartext HTTP.
    Http,
    /// HTTP over TLS.
    Https,
}

pub open spec fn scheme_text(scheme: HttpScheme) -> Seq<char> {
    match scheme {
        HttpScheme::Http => "http"@,
        HttpScheme::Https => "https"@,
    }
}

impl HttpScheme {
    /// The scheme as it stands in a URL.
    pub fn to_text(self) -> (s: String)
        ensures
            s@ == scheme_text(self),
    {
        match self {
            HttpScheme::Http => copy("http"),
            HttpScheme::Https => copy("https"),
        }
    }
}

/// How Remap constructs the upstream HTTP `Host` value and TLS SNI.
#[derive(Debug, Clone, Copy, PartialEq, Eq, Hash, Structural)]
pub enum HostHeaderPolicy {
    /// Preserve the client-facing Remap name.
    PreserveClient,
    /// Replace it with the configured upstream host.
    UseUpstream,
}

impl HostHeaderPolicy {
    /// Returns the stable machine-readable value.
    pub fn as_str(self) -> (s: &'static str)
        ensures
            s@ == match self {
                HostHeaderPolicy::PreserveClient => "preserve-client"@,
                HostHeaderPolicy::UseUpstream => "use-upstream"@,
            },
    {
        match self {
            HostHeaderPolicy::PreserveClient => "preserve-client",
            HostHeaderPolicy::UseUpstream => "use-upstream",
        }
    }
}

/// A validated HTTP upstream host.
#[derive(Debug, PartialEq, Eq, Hash)]
pub enum UpstreamHost {
    /// A canonical hostname.
    Name(RemapName),
    /// An IPv4 or IPv6 address.
    Address(IpAddress),
}

/// A host over plain sequences.
pub enum UpstreamHostView {
    Name(Seq<char>),
    Address(IpAddressView),
}

impl View for UpstreamHost {
    type V = UpstreamHostView;

    open spec fn view(&self) -> UpstreamHostView {
        match self {
            UpstreamHost::Name(name) => UpstreamHostView::Name(name@),
            UpstreamHost::Address(address) => UpstreamHostView::Address(address@),
        }
    }
}

/// The host as it stands in a URL: an IPv6 address in brackets.
pub open spec fn host_text(host: UpstreamHostView) -> Seq<char> {
    match host {
        UpstreamHostView::Name(name) => name,
        UpstreamHostView::Address(IpAddressView::V4(octets)) => address_text(
            IpAddressView::V4(octets),
        ),
        UpstreamHostView::Address(IpAddressView::V6(groups)) => seq!['['] + address_text(
            IpAddressView::V6(groups),
        ) + seq![']'],
    }
}

impl UpstreamHost {
    /// The host as it stands in a URL.
    pub fn to_text(&self) -> (s: String)
        ensures
            s@ == host_text(self@),
    {
        match self {
            UpstreamHost::Name(name) => copy(name.as_str()),
            UpstreamHost::Address(address) => match address {
                IpAddress::V4(_) => address.to_text(),
                IpAddress::V6(_) => {
                    proof {
                        reveal_strlit("[");
                        reveal_strlit("]");
                        assert("["@ =~= seq!['[']);
                        assert("]"@ =~= seq![']']);
                    }
                    concat3("[", address.to_text().as_str(), "]")
                },
            },
        }
    }

    /// A copy of the host.
    pub fn duplicate(&self) -> (r: UpstreamHost)
        ensures
            r@ == self@,
    {
        match self {
            UpstreamHost::Name(name) => UpstreamHost::Name(name.duplicate()),
            UpstreamHost::Address(address) => UpstreamHost::Address(*address),
        }
    }
}

impl Clone for UpstreamHost {
    fn clone(&self) -> (r: UpstreamHost)
        ensures
            r@ == self@,
    {
        self.duplicate()
    }
}

/// A validation failure for an HTTP upstream URL.
#[derive(Debug, Clone, PartialEq, Eq)]
pub enum HttpUpstreamError {
    /// The URL does not contain `scheme://authority`, or its path holds a space
    /// or a line end.
    InvalidUrl(String),
    /// Only HTTP and HTTPS are routed by the gateway.
    UnsupportedScheme(String),
    /// The authority has no host.
    MissingHost,
    /// User information is forbidden in persisted upstream URLs.
    CredentialsNotSupported,
    /// An upstream base URL cannot include a query.
    QueryNotSupported,
    /// An upstream base URL cannot include a fragment.
    FragmentNotSupported,
    /// The port is missing, zero, non-numeric, or greater than 65535.
    InvalidPort(String),
    /// IPv6 literals must use URL brackets.
    UnbracketedIpv6,
    /// The hostname is invalid under Remap's canonical name policy.
    InvalidHost(RemapNameError),
}

/// An upstream failure over plain sequences.
pub enum HttpUpstreamErrorView {
    InvalidUrl(Seq<char>),
    UnsupportedScheme(Seq<char>),
    MissingHost,
    CredentialsNotSupported,
    QueryNotSupported,
    FragmentNotSupported,
    InvalidPort(Seq<char>),
    UnbracketedIpv6,
    InvalidHost(RemapNameErrorView),
}

impl View for HttpUpstreamError {
    type V = HttpUpstreamErrorView;

    open spec fn view(&self) -> HttpUpstreamErrorView {
        match self {
            HttpUpstreamError::InvalidUrl(v) => HttpUpstreamErrorView::InvalidUrl(v@),
            HttpUpstreamError::UnsupportedScheme(v) => HttpUpstreamErrorView::UnsupportedScheme(v@),
            HttpUpstreamError::MissingHost => HttpUpstreamErrorView::MissingHost,
            HttpUpstreamError::CredentialsNotSupported => {
                HttpUpstreamErrorView::CredentialsNotSupported
            },
            HttpUpstreamError::QueryNotSupported => HttpUpstreamErrorView::QueryNotSupported,
            HttpUpstreamError::FragmentNotSupported => HttpUpstreamErrorView::FragmentNotSupported,
            HttpUpstreamError::InvalidPort(v) => HttpUpstreamErrorView::InvalidPort(v@),
            HttpUpstreamError::UnbracketedIpv6 => HttpUpstreamErrorView::UnbracketedIpv6,
            HttpUpstreamError::InvalidHost(e) => HttpUpstreamErrorView::InvalidHost(e@),
        }
    }
}

/// The sentence that describes an upstream failure.
pub open spec fn upstream_error_text(e: HttpUpstreamErrorView) -> Seq<char> {
    match e {
        HttpUpstreamErrorView::InvalidUrl(v) => "'"@ + v + "' is not an HTTP upstream URL"@,
        HttpUpstreamErrorView::UnsupportedScheme(v) => "the upstream scheme '"@ + v
            + "' is unsupported; use http or https"@,
        HttpUpstreamErrorView::MissingHost => "an HTTP upstream URL must include a host"@,
        HttpUpstreamErrorView::CredentialsNotSupported => {
            "credentials are not accepted in an upstream URL"@
        },
        HttpUpstreamErrorView::QueryNotSupported => {
            "an upstream base URL cannot contain a query"@
        },
        HttpUpstreamErrorView::FragmentNotSupported => {
            "an upstream base URL cannot contain a fragment"@
        },
        HttpUpstreamErrorView::InvalidPort(v) => "the upstream port '"@ + v
            + "' must be an integer from 1 through 65535"@,
        HttpUpstreamErrorView::UnbracketedIpv6 => {
            "an IPv6 URL host must be enclosed in brackets"@
        },
        HttpUpstreamErrorView::InvalidHost(e) => name_error_text(e),
    }
}

impl HttpUpstreamError {
    /// The sentence that describes the failure.
    pub fn to_text(&self) -> (s: String)
        ensures
            s@ == upstream_error_text(self@),
    {
        match self {
            HttpUpstreamError::InvalidUrl(v) => concat3(
                "'",
                v.as_str(),
                "' is not an HTTP upstream URL",
            ),
            HttpUpstreamError::UnsupportedScheme(v) => concat3(
                "the upstream scheme '",
                v.as_str(),
                "' is unsupported; use http or https",
            ),
            HttpUpstreamError::MissingHost => copy("an HTTP upstream URL must include a host"),
            HttpUpstreamError::CredentialsNotSupported => {
                copy("credentials are not accepted in an upstream URL")
            },
            HttpUpstreamError::QueryNotSupported => {
                copy("an upstream base URL cannot contain a query")
            },
            HttpUpstreamError::FragmentNotSupported => {
                copy("an upstream base URL cannot contain a fragment")
            },
            HttpUpstreamError::InvalidPort(v) => concat3(
                "the upstream port '",
                v.as_str(),
                "' must be an integer from 1 through 65535",
            ),
            HttpUpstreamError::UnbracketedIpv6 => {
                copy("an IPv6 URL host must be enclosed in brackets")
            },
            HttpUpstreamError::InvalidHost(e) => e.to_text(),
        }
    }
}

// ---------------------------------------------------------------------------
// What an upstream is
// ---------------------------------------------------------------------------

/// An upstream over plain sequences.
pub struct HttpUpstreamView {
    pub scheme: HttpScheme,
    pub host: UpstreamHostView,
    pub port: Option<u16>,
    pub base_path: Seq<char>,
    pub policy: HostHeaderPolicy,
}

/// A character that a base path may not hold: it would end a line or a word of a
/// request.
pub open spec fn refused_in_path(c: char) -> bool {
    c == '\r' || c == '\n' || c == ' '
}

pub open spec fn clean_path(path: Seq<char>) -> bool {
    forall|i: int| 0 <= i < path.len() ==> !refused_in_path(#[trigger] path[i])
}

/// A host that an upstream can have.
pub open spec fn valid_host(host: UpstreamHostView) -> bool {
    match host {
        UpstreamHostView::Name(name) => canonical_name(name),
        UpstreamHostView::Address(address) => address.well_formed(),
    }
}

/// An upstream that a URL can write.
pub open spec fn valid_upstream(u: HttpUpstreamView) -> bool {
    &&& valid_host(u.host)
    &&& u.port != Some(0u16)
    &&& u.base_path.len() > 0
    &&& u.base_path[0] == '/'
    &&& clean_path(u.base_path)
    &&& !u.base_path.contains('?')
    &&& !u.base_path.contains('#')
}

/// The port that a text writes: a number from 1 through 65535, with a plus
/// sign before it or not.
pub open spec fn port_of(raw: Seq<char>) -> Result<u16, HttpUpstreamErrorView> {
    let digits = if begins(raw, seq!['+']) {
        from(raw, 1)
    } else {
        raw
    };
    if digits.len() >= 1 && all_digits(digits) && 1 <= decimal_value(digits) <= 65535 {
        Ok(decimal_value(digits) as u16)
    } else {
        Err(HttpUpstreamErrorView::InvalidPort(raw))
    }
}

/// The host that a text without port writes.
pub open spec fn host_of(raw: Seq<char>) -> Result<UpstreamHostView, HttpUpstreamErrorView> {
    if raw.len() == 0 {
        Err(HttpUpstreamErrorView::MissingHost)
    } else if address_value(raw) is Some {
        Ok(UpstreamHostView::Address(address_value(raw)->0))
    } else {
        match name_of(raw) {
            Ok(name) => Ok(UpstreamHostView::Name(name)),
            Err(error) => Err(HttpUpstreamErrorView::InvalidHost(error)),
        }
    }
}

/// The host and the port of an authority that begins with a bracket; `inner` is
/// what stands behind that bracket.
pub open spec fn bracketed_of(authority: Seq<char>, inner: Seq<char>) -> Result<
    (UpstreamHostView, Option<u16>),
    HttpUpstreamErrorView,
> {
    let close = first_index(inner, ']');
    let raw = inner.subrange(0, close);
    let trailing = from(inner, close + 1);
    if close >= inner.len() {
        Err(HttpUpstreamErrorView::MissingHost)
    } else if ipv6_value(raw) is None {
        Err(HttpUpstreamErrorView::InvalidHost(RemapNameErrorView::AddressLiteral(raw)))
    } else {
        let host = UpstreamHostView::Address(IpAddressView::V6(ipv6_value(raw)->0));
        if trailing.len() == 0 {
            Ok((host, None))
        } else if trailing[0] != ':' {
            Err(HttpUpstreamErrorView::InvalidUrl(authority))
        } else {
            match port_of(from(trailing, 1)) {
                Ok(port) => Ok((host, Some(port))),
                Err(error) => Err(error),
            }
        }
    }
}

/// The host and the port of an authority.
pub open spec fn authority_of(authority: Seq<char>) -> Result<
    (UpstreamHostView, Option<u16>),
    HttpUpstreamErrorView,
> {
    let colon = first_index(authority, ':');
    if begins(authority, seq!['[']) {
        bracketed_of(authority, from(authority, 1))
    } else if colon >= authority.len() {
        match host_of(authority) {
            Ok(host) => Ok((host, None)),
            Err(error) => Err(error),
        }
    } else if from(authority, colon + 1).contains(':') {
        Err(HttpUpstreamErrorView::UnbracketedIpv6)
    } else {
        match port_of(from(authority, colon + 1)) {
            Err(error) => Err(error),
            Ok(port) => match host_of(authority.subrange(0, colon)) {
                Ok(host) => Ok((host, Some(port))),
                Err(error) => Err(error),
            },
        }
    }
}

pub open spec fn scheme_of(raw: Seq<char>) -> Option<HttpScheme> {
    if lowered(raw) == "http"@ {
        Some(HttpScheme::Http)
    } else if lowered(raw) == "https"@ {
        Some(HttpScheme::Https)
    } else {
        None
    }
}

/// The position of `://`, and the length plus one where it does not occur.
pub open spec fn scheme_end(s: Seq<char>) -> int {
    first_match(s, seq![':', '/', '/'])
}

/// The upstream that a URL writes, or what is wrong with it.
pub open spec fn upstream_of(input: Seq<char>, policy: HostHeaderPolicy) -> Result<
    HttpUpstreamView,
    HttpUpstreamErrorView,
> {
    let end = scheme_end(input);
    let raw = input.subrange(0, end);
    let rest = from(input, end + 3);
    let slash = first_index(rest, '/');
    let authority = rest.subrange(0, slash);
    let path = if slash < rest.len() {
        from(rest, slash)
    } else {
        seq!['/']
    };
    if end > input.len() {
        Err(HttpUpstreamErrorView::InvalidUrl(input))
    } else if scheme_of(raw) is None {
        Err(HttpUpstreamErrorView::UnsupportedScheme(raw))
    } else if rest.contains('?') {
        Err(HttpUpstreamErrorView::QueryNotSupported)
    } else if rest.contains('#') {
        Err(HttpUpstreamErrorView::FragmentNotSupported)
    } else if authority.len() == 0 {
        Err(HttpUpstreamErrorView::MissingHost)
    } else if authority.contains('@') {
        Err(HttpUpstreamErrorView::CredentialsNotSupported)
    } else {
        match authority_of(authority) {
            Err(error) => Err(error),
            Ok((host, port)) => if clean_path(path) {
                Ok(
                    HttpUpstreamView {
                        scheme: scheme_of(raw)->0,
                        host,
                        port,
                        base_path: path,
                        policy,
                    },
                )
            } else {
                Err(HttpUpstreamErrorView::InvalidUrl(input))
            },
        }
    }
}

/// The text of a port behind its colon, or nothing.
pub open spec fn port_text(port: Option<u16>) -> Seq<char> {
    match port {
        Some(port) => seq![':'] + decimal(port as nat),
        None => Seq::empty(),
    }
}

/// The text of an upstream.
pub open spec fn upstream_text(u: HttpUpstreamView) -> Seq<char> {
    scheme_text(u.scheme) + seq![':', '/', '/'] + host_text(u.host) + port_text(u.port) + u.base_path
}

// ---------------------------------------------------------------------------
// Upstreams
// ---------------------------------------------------------------------------

/// A canonical HTTP or HTTPS upstream base URL.
#[derive(Debug, PartialEq, Eq, Hash)]
pub struct HttpUpstream {
    scheme: HttpScheme,
    host: UpstreamHost,
    port: Option<u16>,
    base_path: String,
    host_header_policy: HostHeaderPolicy,
}

impl View for HttpUpstream {
    type V = HttpUpstreamView;

    closed spec fn view(&self) -> HttpUpstreamView {
        HttpUpstreamView {
            scheme: self.scheme,
            host: self.host@,
            port: self.port,
            base_path: self.base_path@,
            policy: self.host_header_policy,
        }
    }
}

/// Whether a path is free of spaces and line ends.
fn path_is_clean(path: &str) -> (r: bool)
    ensures
        r == clean_path(path@),
{
    let v = chars(path);
    let mut i: usize = 0;
    while i < v.len()
        invariant
            v@ == path@,
            i <= v@.len(),
            forall|k: int| 0 <= k < i ==> !refused_in_path(#[trigger] path@[k]),
        decreases v@.len() - i,
    {
        let c = v[i];
        if c == '\r' || c == '\n' || c == ' ' {
            proof {
                assert(refused_in_path(path@[i as int]));
            }
            return false;
        }
        i += 1;
    }
    true
}

fn holds_char(v: &[char], c: char) -> (r: bool)
    ensures
        r == v@.contains(c),
{
    let i = find_char(v, 0, c);
    proof {
        assert(v@.subrange(0, v@.len() as int) =~= v@);
        lemma_first_index(v@, c);
    }
    i < v.len()
}

impl HttpUpstream {
    /// Parses an upstream with the default host policy, which hands the
    /// destination its own host.
    pub fn parse(input: &str) -> (r: Result<HttpUpstream, HttpUpstreamError>)
        ensures
            match r {
                Ok(u) => upstream_of(input@, HostHeaderPolicy::UseUpstream) == Ok::<
                    HttpUpstreamView,
                    HttpUpstreamErrorView,
                >(u@),
                Err(e) => upstream_of(input@, HostHeaderPolicy::UseUpstream) == Err::<
                    HttpUpstreamView,
                    HttpUpstreamErrorView,
                >(e@),
            },
    {
        Self::parse_with_policy(input, HostHeaderPolicy::UseUpstream)
    }

    /// Parses an upstream with an explicit host policy.
    pub fn parse_with_policy(input: &str, host_header_policy: HostHeaderPolicy) -> (r: Result<
        HttpUpstream,
        HttpUpstreamError,
    >)
        ensures
            match r {
                Ok(u) => upstream_of(input@, host_header_policy) == Ok::<
                    HttpUpstreamView,
                    HttpUpstreamErrorView,
                >(u@),
                Err(e) => upstream_of(input@, host_header_policy) == Err::<
                    HttpUpstreamView,
                    HttpUpstreamErrorView,
                >(e@),
            },
    {
        let v = chars(input);
        let count: usize = v.len();
        let mark = [':', '/', '/'];
        proof {
            assert(mark@ =~= seq![':', '/', '/']);
        }
        let end: usize = match find_text(&v, &mark) {
            Some(i) => i,
            None => {
                return Err(HttpUpstreamError::InvalidUrl(copy(input)));
            },
        };
        let raw = slice(&v, 0, end);
        let low = lowercase(raw.as_str());
        let scheme = if same(low.as_str(), "http") {
            HttpScheme::Http
        } else if same(low.as_str(), "https") {
            proof {
                reveal_strlit("http");
                reveal_strlit("https");
            }
            HttpScheme::Https
        } else {
            return Err(HttpUpstreamError::UnsupportedScheme(raw));
        };
        let rest_text = slice(&v, end + 3, count);
        let rest = chars(rest_text.as_str());
        if holds_char(&rest, '?') {
            return Err(HttpUpstreamError::QueryNotSupported);
        }
        if holds_char(&rest, '#') {
            return Err(HttpUpstreamError::FragmentNotSupported);
        }
        let slash = find_char(&rest, 0, '/');
        proof {
            assert(rest@.subrange(0, rest@.len() as int) =~= rest@);
        }
        let authority = slice(&rest, 0, slash);
        let base_path = if slash < rest.len() {
            slice(&rest, slash, rest.len())
        } else {
            proof {
                reveal_strlit("/");
                assert("/"@ =~= seq!['/']);
            }
            copy("/")
        };
        if slash == 0 {
            return Err(HttpUpstreamError::MissingHost);
        }
        let authority_chars = chars(authority.as_str());
        if holds_char(&authority_chars, '@') {
            return Err(HttpUpstreamError::CredentialsNotSupported);
        }
        match Self::parse_authority(authority.as_str()) {
            Err(error) => Err(error),
            Ok((host, port)) => {
                if !path_is_clean(base_path.as_str()) {
                    return Err(HttpUpstreamError::InvalidUrl(copy(input)));
                }
                Ok(HttpUpstream { scheme, host, port, base_path, host_header_policy })
            },
        }
    }

    /// Returns the upstream scheme.
    pub fn scheme(&self) -> (r: HttpScheme)
        ensures
            r == self@.scheme,
    {
        self.scheme
    }

    /// Returns the upstream host.
    pub fn host(&self) -> (r: &UpstreamHost)
        ensures
            r@ == self@.host,
    {
        &self.host
    }

    /// Returns an explicitly configured port.
    pub fn port(&self) -> (r: Option<u16>)
        ensures
            r == self@.port,
    {
        self.port
    }

    /// Returns the base path that the gateway prepends.
    pub fn base_path(&self) -> (r: &str)
        ensures
            r@ == self@.base_path,
    {
        self.base_path.as_str()
    }

    /// Returns the explicit upstream host policy.
    pub fn host_header_policy(&self) -> (r: HostHeaderPolicy)
        ensures
            r == self@.policy,
    {
        self.host_header_policy
    }

    fn parse_host(raw: &str) -> (r: Result<UpstreamHost, HttpUpstreamError>)
        ensures
            match r {
                Ok(h) => host_of(raw@) == Ok::<UpstreamHostView, HttpUpstreamErrorView>(h@),
                Err(e) => host_of(raw@) == Err::<UpstreamHostView, HttpUpstreamErrorView>(e@),
            },
    {
        if raw.is_empty() {
            return Err(HttpUpstreamError::MissingHost);
        }
        if let Some(address) = parse_address(raw) {
            return Ok(UpstreamHost::Address(address));
        }
        match RemapName::parse(raw) {
            Ok(name) => Ok(UpstreamHost::Name(name)),
            Err(error) => Err(HttpUpstreamError::InvalidHost(error)),
        }
    }

    /// What follows the opening bracket of an authority.
    fn parse_bracketed(authority: &str, inner: &str) -> (r: Result<
        (UpstreamHost, Option<u16>),
        HttpUpstreamError,
    >)
        ensures
            match r {
                Ok((h, p)) => bracketed_of(authority@, inner@) == Ok::<
                    (UpstreamHostView, Option<u16>),
                    HttpUpstreamErrorView,
                >((h@, p)),
                Err(e) => bracketed_of(authority@, inner@) == Err::<
                    (UpstreamHostView, Option<u16>),
                    HttpUpstreamErrorView,
                >(e@),
            },
    {
        let v = chars(inner);
        let close = find_char(&v, 0, ']');
        proof {
            assert(v@.subrange(0, v@.len() as int) =~= v@);
        }
        if close == v.len() {
            return Err(HttpUpstreamError::MissingHost);
        }
        let raw = slice(&v, 0, close);
        let groups = match parse_ipv6(raw.as_str()) {
            Some(groups) => groups,
            None => {
                return Err(
                    HttpUpstreamError::InvalidHost(RemapNameError::AddressLiteral(raw)),
                );
            },
        };
        let host = UpstreamHost::Address(IpAddress::V6(groups));
        if close + 1 == v.len() {
            return Ok((host, None));
        }
        let ghost trailing = from(inner@, close + 1);
        proof {
            assert(trailing[0] == v@[close + 1]);
        }
        if v[close + 1] != ':' {
            return Err(HttpUpstreamError::InvalidUrl(copy(authority)));
        }
        let raw_port = slice(&v, close + 2, v.len());
        proof {
            assert(raw_port@ =~= from(trailing, 1));
        }
        match Self::parse_port(raw_port.as_str()) {
            Ok(port) => Ok((host, Some(port))),
            Err(error) => Err(error),
        }
    }

    fn parse_authority(authority: &str) -> (r: Result<
        (UpstreamHost, Option<u16>),
        HttpUpstreamError,
    >)
        ensures
            match r {
                Ok((h, p)) => authority_of(authority@) == Ok::<
                    (UpstreamHostView, Option<u16>),
                    HttpUpstreamErrorView,
                >((h@, p)),
                Err(e) => authority_of(authority@) == Err::<
                    (UpstreamHostView, Option<u16>),
                    HttpUpstreamErrorView,
                >(e@),
            },
    {
        proof {
            reveal_strlit("[");
            assert("["@ =~= seq!['[']);
        }
        if let Some(inner) = without_prefix(authority, "[") {
            return Self::parse_bracketed(authority, inner.as_str());
        }
        let v = chars(authority);
        let colon = find_char(&v, 0, ':');
        proof {
            assert(v@.subrange(0, v@.len() as int) =~= v@);
        }
        if colon == v.len() {
            return match Self::parse_host(authority) {
                Ok(host) => Ok((host, None)),
                Err(error) => Err(error),
            };
        }
        let raw_port = slice(&v, colon + 1, v.len());
        let port_chars = chars(raw_port.as_str());
        if holds_char(&port_chars, ':') {
            return Err(HttpUpstreamError::UnbracketedIpv6);
        }
        let port = match Self::parse_port(raw_port.as_str()) {
            Ok(port) => port,
            Err(error) => {
                return Err(error);
            },
        };
        let raw_host = slice(&v, 0, colon);
        match Self::parse_host(raw_host.as_str()) {
            Ok(host) => Ok((host, Some(port))),
            Err(error) => Err(error),
        }
    }

    fn parse_port(raw_port: &str) -> (r: Result<u16, HttpUpstreamError>)
        ensures
            match r {
                Ok(p) => port_of(raw_port@) == Ok::<u16, HttpUpstreamErrorView>(p),
                Err(e) => port_of(raw_port@) == Err::<u16, HttpUpstreamErrorView>(e@),
            },
    {
        let v = chars(raw_port);
        let start: usize = if v.len() > 0 && v[0] == '+' {
            1
        } else {
            0
        };
        proof {
            assert(v@.subrange(0, v@.len() as int) =~= v@);
            if v@.len() > 0 {
                assert(v@.subrange(0, 1) =~= seq![v@[0]]);
                assert(seq!['+'][0] == '+');
            }
        }
        match read_number(&v, start, v.len(), 65535) {
            Some(n) => if n == 0 {
                Err(HttpUpstreamError::InvalidPort(copy(raw_port)))
            } else {
                Ok(n as u16)
            },
            None => Err(HttpUpstreamError::InvalidPort(copy(raw_port))),
        }
    }

    /// The canonical URL of the upstream.
    pub fn to_text(&self) -> (s: String)
        ensures
            s@ == upstream_text(self@),
    {
        let mut s = self.scheme.to_text();
        s.append("://");
        s.append(self.host.to_text().as_str());
        let ghost before = s@;
        if let Some(port) = self.port {
            s.append(":");
            s.append(number_text(port as u64).as_str());
            proof {
                reveal_strlit(":");
                assert(":"@ =~= seq![':']);
                assert(s@ =~= before + (seq![':'] + decimal(port as nat)));
            }
        } else {
            proof {
                assert(before =~= before + Seq::<char>::empty());
            }
        }
        s.append(self.base_path.as_str());
        proof {
            reveal_strlit("://");
            assert("://"@ =~= seq![':', '/', '/']);
        }
        s
    }

    /// A copy of the upstream.
    pub fn duplicate(&self) -> (r: HttpUpstream)
        ensures
            r@ == self@,
    {
        HttpUpstream {
            scheme: self.scheme,
            host: self.host.duplicate(),
            port: self.port,
            base_path: copy(self.base_path.as_str()),
            host_header_policy: self.host_header_policy,
        }
    }
}

impl Clone for HttpUpstream {
    fn clone(&self) -> (r: HttpUpstream)
        ensures
            r@ == self@,
    {
        self.duplicate()
    }
}

impl core::str::FromStr for HttpUpstream {
    type Err = HttpUpstreamError;

    fn from_str(input: &str) -> (r: Result<HttpUpstream, HttpUpstreamError>)
        ensures
            match r {
                Ok(u) => upstream_of(input@, HostHeaderPolicy::UseUpstream) == Ok::<
                    HttpUpstreamView,
                    HttpUpstreamErrorView,
                >(u@),
                Err(e) => upstream_of(input@, HostHeaderPolicy::UseUpstream) == Err::<
                    HttpUpstreamView,
                    HttpUpstreamErrorView,
                >(e@),
            },
    {
        HttpUpstream::parse(input)
    }
}

// ---------------------------------------------------------------------------
// Peer services
// ---------------------------------------------------------------------------

/// A service that a named peer offers.
#[derive(Debug, PartialEq, Eq, Hash)]
pub struct PeerService {
    peer: String,
    service: String,
    host_header_policy: HostHeaderPolicy,
}

/// A peer service over plain sequences.
pub struct PeerServiceView {
    pub peer: Seq<char>,
    pub service: Seq<char>,
    pub policy: HostHeaderPolicy,
}

impl View for PeerService {
    type V = PeerServiceView;

    closed spec fn view(&self) -> PeerServiceView {
        PeerServiceView {
            peer: self.peer@,
            service: self.service@,
            policy: self.host_header_policy,
        }
    }
}

pub open spec fn peer_char(c: char) -> bool {
    is_alphanumeric(c) || c == '-' || c == '_' || c == '.'
}

/// A peer by name, fingerprint or node identity; never an option.
pub open spec fn valid_peer(s: Seq<char>) -> bool {
    &&& s.len() >= 1
    &&& s[0] != '-'
    &&& forall|i: int| 0 <= i < s.len() ==> peer_char(#[trigger] s[i])
}

pub open spec fn service_char(c: char) -> bool {
    is_lower(c) || is_digit(c) || c == '-'
}

/// A service name: one to fifteen lower-case letters, digits and inner hyphens.
pub open spec fn valid_service(s: Seq<char>) -> bool {
    &&& 1 <= s.len() <= 15
    &&& s[0] != '-'
    &&& s.last() != '-'
    &&& forall|i: int| 0 <= i < s.len() ==> service_char(#[trigger] s[i])
}

/// The peer service that follows the scheme, where there is one.
pub open spec fn peer_of(rest: Seq<char>, policy: HostHeaderPolicy) -> Option<PeerServiceView> {
    let slash = first_index(rest, '/');
    let peer = rest.subrange(0, slash);
    let service = from(rest, slash + 1);
    if slash < rest.len() && valid_peer(peer) && valid_service(service) {
        Some(PeerServiceView { peer, service, policy })
    } else {
        None
    }
}

pub open spec fn peer_text(p: PeerServiceView) -> Seq<char> {
    "supgang://"@ + p.peer + seq!['/'] + p.service
}

fn peer_is_valid(s: &str) -> (r: bool)
    ensures
        r == valid_peer(s@),
{
    let v = chars(s);
    if v.len() == 0 || v[0] == '-' {
        return false;
    }
    let mut i: usize = 0;
    while i < v.len()
        invariant
            v@ == s@,
            i <= v@.len(),
            forall|k: int| 0 <= k < i ==> peer_char(#[trigger] s@[k]),
        decreases v@.len() - i,
    {
        let c = v[i];
        let fine = ('a' <= c && c <= 'z') || ('A' <= c && c <= 'Z') || ('0' <= c && c <= '9') || c
            == '-' || c == '_' || c == '.';
        if !fine {
            proof {
                assert(!peer_char(s@[i as int]));
            }
            return false;
        }
        i += 1;
    }
    true
}

fn service_is_valid(s: &str) -> (r: bool)
    ensures
        r == valid_service(s@),
{
    let v = chars(s);
    if v.len() == 0 || v.len() > 15 || v[0] == '-' || v[v.len() - 1] == '-' {
        return false;
    }
    let mut i: usize = 0;
    while i < v.len()
        invariant
            v@ == s@,
            i <= v@.len(),
            forall|k: int| 0 <= k < i ==> service_char(#[trigger] s@[k]),
        decreases v@.len() - i,
    {
        let c = v[i];
        let fine = ('a' <= c && c <= 'z') || ('0' <= c && c <= '9') || c == '-';
        if !fine {
            proof {
                assert(!service_char(s@[i as int]));
            }
            return false;
        }
        i += 1;
    }
    true
}

impl PeerService {
    /// Reads what follows `supgang://` as a peer and one of its services.
    pub fn parse(rest: &str, host_header_policy: HostHeaderPolicy) -> (r: Option<PeerService>)
        ensures
            r is Some <==> peer_of(rest@, host_header_policy) is Some,
            r is Some ==> r->0@ == peer_of(rest@, host_header_policy)->0,
    {
        let v = chars(rest);
        let slash = find_char(&v, 0, '/');
        proof {
            assert(v@.subrange(0, v@.len() as int) =~= v@);
        }
        if slash == v.len() {
            return None;
        }
        let peer = slice(&v, 0, slash);
        let service = slice(&v, slash + 1, v.len());
        if peer_is_valid(peer.as_str()) && service_is_valid(service.as_str()) {
            Some(PeerService { peer, service, host_header_policy })
        } else {
            None
        }
    }

    /// The peer as it was written.
    pub fn peer(&self) -> (r: &str)
        ensures
            r@ == self@.peer,
    {
        self.peer.as_str()
    }

    /// The name of the service.
    pub fn service(&self) -> (r: &str)
        ensures
            r@ == self@.service,
    {
        self.service.as_str()
    }

    /// Returns the explicit host policy.
    pub fn host_header_policy(&self) -> (r: HostHeaderPolicy)
        ensures
            r == self@.policy,
    {
        self.host_header_policy
    }

    /// The text of the peer service.
    pub fn to_text(&self) -> (s: String)
        ensures
            s@ == peer_text(self@),
    {
        let mut s = copy("supgang://");
        s.append(self.peer.as_str());
        s.push('/');
        s.append(self.service.as_str());
        proof {
            assert(s@ =~= peer_text(self@));
        }
        s
    }

    /// A copy of the peer service.
    pub fn duplicate(&self) -> (r: PeerService)
        ensures
            r@ == self@,
    {
        PeerService {
            peer: copy(self.peer.as_str()),
            service: copy(self.service.as_str()),
            host_header_policy: self.host_header_policy,
        }
    }
}

impl Clone for PeerService {
    fn clone(&self) -> (r: PeerService)
        ensures
            r@ == self@,
    {
        self.duplicate()
    }
}

// ---------------------------------------------------------------------------
// Destinations
// ---------------------------------------------------------------------------

/// A validation failure for an inferred mapping destination.
#[derive(Debug, Clone, PartialEq, Eq)]
pub enum MappingTargetError {
    /// A DNS alias is not a valid Remap hostname.
    InvalidName(RemapNameError),
    /// An HTTP upstream is invalid.
    InvalidHttpUpstream(HttpUpstreamError),
    /// A `supgang://` destination does not name a peer and a service.
    InvalidPeerService(String),
}

/// A destination failure over plain sequences.
pub enum MappingTargetErrorView {
    InvalidName(RemapNameErrorView),
    InvalidHttpUpstream(HttpUpstreamErrorView),
    InvalidPeerService(Seq<char>),
}

impl View for MappingTargetError {
    type V = MappingTargetErrorView;

    open spec fn view(&self) -> MappingTargetErrorView {
        match self {
            MappingTargetError::InvalidName(e) => MappingTargetErrorView::InvalidName(e@),
            MappingTargetError::InvalidHttpUpstream(e) => {
                MappingTargetErrorView::InvalidHttpUpstream(e@)
            },
            MappingTargetError::InvalidPeerService(v) => {
                MappingTargetErrorView::InvalidPeerService(v@)
            },
        }
    }
}

pub open spec fn target_error_text(e: MappingTargetErrorView) -> Seq<char> {
    match e {
        MappingTargetErrorView::InvalidName(e) => name_error_text(e),
        MappingTargetErrorView::InvalidHttpUpstream(e) => upstream_error_text(e),
        MappingTargetErrorView::InvalidPeerService(v) => "'"@ + v
            + "' does not name a peer and a service"@,
    }
}

impl MappingTargetError {
    /// The sentence that describes the failure.
    pub fn to_text(&self) -> (s: String)
        ensures
            s@ == target_error_text(self@),
    {
        match self {
            MappingTargetError::InvalidName(e) => e.to_text(),
            MappingTargetError::InvalidHttpUpstream(e) => e.to_text(),
            MappingTargetError::InvalidPeerService(v) => concat3(
                "'",
                v.as_str(),
                "' does not name a peer and a service",
            ),
        }
    }
}

/// A direct DNS destination, DNS alias, routed HTTP service or peer service.
#[derive(Debug, PartialEq, Eq, Hash)]
pub enum MappingTarget {
    /// Return an IPv4 or IPv6 DNS answer directly.
    DnsAddress(IpAddress),
    /// Resolve or return a DNS alias.
    DnsAlias(RemapName),
    /// Return loopback from DNS and route HTTP by Host or TLS SNI.
    Http(HttpUpstream),
    /// Route to a service that a named peer offers.
    Peer(PeerService),
}

/// A destination over plain sequences.
pub enum MappingTargetView {
    DnsAddress(IpAddressView),
    DnsAlias(Seq<char>),
    Http(HttpUpstreamView),
    Peer(PeerServiceView),
}

impl View for MappingTarget {
    type V = MappingTargetView;

    open spec fn view(&self) -> MappingTargetView {
        match self {
            MappingTarget::DnsAddress(a) => MappingTargetView::DnsAddress(a@),
            MappingTarget::DnsAlias(n) => MappingTargetView::DnsAlias(n@),
            MappingTarget::Http(u) => MappingTargetView::Http(u@),
            MappingTarget::Peer(p) => MappingTargetView::Peer(p@),
        }
    }
}

/// The stable category of a mapping destination.
#[derive(Debug, Clone, Copy, PartialEq, Eq, Hash, Structural)]
pub enum MappingTargetKind {
    /// A direct IPv4 or IPv6 DNS answer.
    DnsAddress,
    /// A DNS alias destination.
    DnsAlias,
    /// A locally routed HTTP or HTTPS service.
    Http,
    /// A service of a named peer.
    Peer,
}

impl MappingTargetKind {
    /// Returns the stable machine-readable value.
    pub fn as_str(self) -> (s: &'static str)
        ensures
            s@ == match self {
                MappingTargetKind::DnsAddress => "dns-address"@,
                MappingTargetKind::DnsAlias => "dns-alias"@,
                MappingTargetKind::Http => "http"@,
                MappingTargetKind::Peer => "peer"@,
            },
    {
        match self {
            MappingTargetKind::DnsAddress => "dns-address",
            MappingTargetKind::DnsAlias => "dns-alias",
            MappingTargetKind::Http => "http",
            MappingTargetKind::Peer => "peer",
        }
    }
}

/// The destination that an input writes, or what is wrong with it.
pub open spec fn target_of(input: Seq<char>, policy: HostHeaderPolicy) -> Result<
    MappingTargetView,
    MappingTargetErrorView,
> {
    let end = scheme_end(input);
    if end <= input.len() {
        if lowered(input.subrange(0, end)) == "supgang"@ {
            match peer_of(from(input, end + 3), policy) {
                Some(service) => Ok(MappingTargetView::Peer(service)),
                None => Err(MappingTargetErrorView::InvalidPeerService(input)),
            }
        } else {
            match upstream_of(input, policy) {
                Ok(upstream) => Ok(MappingTargetView::Http(upstream)),
                Err(error) => Err(MappingTargetErrorView::InvalidHttpUpstream(error)),
            }
        }
    } else if address_value(input) is Some {
        Ok(MappingTargetView::DnsAddress(address_value(input)->0))
    } else {
        match name_of(input) {
            Ok(name) => Ok(MappingTargetView::DnsAlias(name)),
            Err(error) => Err(MappingTargetErrorView::InvalidName(error)),
        }
    }
}

/// The text of a destination.
pub open spec fn target_text(t: MappingTargetView) -> Seq<char> {
    match t {
        MappingTargetView::DnsAddress(a) => address_text(a),
        MappingTargetView::DnsAlias(n) => n,
        MappingTargetView::Http(u) => upstream_text(u),
        MappingTargetView::Peer(p) => peer_text(p),
    }
}

pub open spec fn target_kind(t: MappingTargetView) -> MappingTargetKind {
    match t {
        MappingTargetView::DnsAddress(_) => MappingTargetKind::DnsAddress,
        MappingTargetView::DnsAlias(_) => MappingTargetKind::DnsAlias,
        MappingTargetView::Http(_) => MappingTargetKind::Http,
        MappingTargetView::Peer(_) => MappingTargetKind::Peer,
    }
}

impl MappingTarget {
    /// Parses a destination and applies an explicit policy to routed services.
    pub fn parse_with_http_policy(input: &str, host_header_policy: HostHeaderPolicy) -> (r: Result<
        MappingTarget,
        MappingTargetError,
    >)
        ensures
            match r {
                Ok(t) => target_of(input@, host_header_policy) == Ok::<
                    MappingTargetView,
                    MappingTargetErrorView,
                >(t@),
                Err(e) => target_of(input@, host_header_policy) == Err::<
                    MappingTargetView,
                    MappingTargetErrorView,
                >(e@),
            },
    {
        let v = chars(input);
        let count: usize = v.len();
        let mark = [':', '/', '/'];
        proof {
            assert(mark@ =~= seq![':', '/', '/']);
        }
        if let Some(end) = find_text(&v, &mark) {
            let scheme = lowercase(slice(&v, 0, end).as_str());
            if same(scheme.as_str(), "supgang") {
                let rest = slice(&v, end + 3, count);
                return match PeerService::parse(rest.as_str(), host_header_policy) {
                    Some(service) => Ok(MappingTarget::Peer(service)),
                    None => Err(MappingTargetError::InvalidPeerService(copy(input))),
                };
            }
            return match HttpUpstream::parse_with_policy(input, host_header_policy) {
                Ok(upstream) => Ok(MappingTarget::Http(upstream)),
                Err(error) => Err(MappingTargetError::InvalidHttpUpstream(error)),
            };
        }
        if let Some(address) = parse_address(input) {
            return Ok(MappingTarget::DnsAddress(address));
        }
        match RemapName::parse(input) {
            Ok(name) => Ok(MappingTarget::DnsAlias(name)),
            Err(error) => Err(MappingTargetError::InvalidName(error)),
        }
    }

    /// Returns the stable destination category.
    pub fn kind(&self) -> (r: MappingTargetKind)
        ensures
            r == target_kind(self@),
    {
        match self {
            MappingTarget::DnsAddress(_) => MappingTargetKind::DnsAddress,
            MappingTarget::DnsAlias(_) => MappingTargetKind::DnsAlias,
            MappingTarget::Http(_) => MappingTargetKind::Http,
            MappingTarget::Peer(_) => MappingTargetKind::Peer,
        }
    }

    /// The text of the destination.
    pub fn to_text(&self) -> (s: String)
        ensures
            s@ == target_text(self@),
    {
        match self {
            MappingTarget::DnsAddress(a) => a.to_text(),
            MappingTarget::DnsAlias(n) => copy(n.as_str()),
            MappingTarget::Http(u) => u.to_text(),
            MappingTarget::Peer(p) => p.to_text(),
        }
    }

    /// A copy of the destination.
    pub fn duplicate(&self) -> (r: MappingTarget)
        ensures
            r@ == self@,
    {
        match self {
            MappingTarget::DnsAddress(a) => MappingTarget::DnsAddress(*a),
            MappingTarget::DnsAlias(n) => MappingTarget::DnsAlias(n.duplicate()),
            MappingTarget::Http(u) => MappingTarget::Http(u.duplicate()),
            MappingTarget::Peer(p) => MappingTarget::Peer(p.duplicate()),
        }
    }
}

impl Clone for MappingTarget {
    fn clone(&self) -> (r: MappingTarget)
        ensures
            r@ == self@,
    {
        self.duplicate()
    }
}

impl core::str::FromStr for MappingTarget {
    type Err = MappingTargetError;

    /// Parses a destination; a routed service gets the name that the client asked
    /// for.
    fn from_str(input: &str) -> (r: Result<MappingTarget, MappingTargetError>)
        ensures
            match r {
                Ok(t) => target_of(input@, HostHeaderPolicy::PreserveClient) == Ok::<
                    MappingTargetView,
                    MappingTargetErrorView,
                >(t@),
                Err(e) => target_of(input@, HostHeaderPolicy::PreserveClient) == Err::<
                    MappingTargetView,
                    MappingTargetErrorView,
                >(e@),
            },
    {
        MappingTarget::parse_with_http_policy(input, HostHeaderPolicy::PreserveClient)
    }
}

// ---------------------------------------------------------------------------
// Laws
// ---------------------------------------------------------------------------

/// Every accepted authority names a valid host and a port that is not zero.
proof fn lemma_authority_is_valid(a: Seq<char>)
    requires
        authority_of(a) is Ok,
    ensures
        valid_host((authority_of(a)->Ok_0).0),
        (authority_of(a)->Ok_0).1 != Some(0u16),
{
    let colon = first_index(a, ':');
    lemma_first_index(a, ':');
    if begins(a, seq!['[']) {
        let inner = from(a, 1);
        let close = first_index(inner, ']');
        lemma_ipv6_shape(inner.subrange(0, close));
    } else if colon >= a.len() {
        lemma_host_is_valid(a);
    } else {
        lemma_host_is_valid(a.subrange(0, colon));
    }
}

proof fn lemma_host_is_valid(raw: Seq<char>)
    requires
        host_of(raw) is Ok,
    ensures
        valid_host(host_of(raw)->Ok_0),
{
    if address_value(raw) is Some {
        lemma_ipv6_shape(raw);
    } else {
        crate::name::law_parsed_name_is_canonical(raw);
    }
}

proof fn lemma_ipv6_shape(s: Seq<char>)
    ensures
        ipv6_value(s) is Some ==> ipv6_value(s)->0.len() == 8,
{
}

/// Whatever an accepted URL writes is a valid upstream.
pub proof fn law_parsed_upstream_is_valid(input: Seq<char>, policy: HostHeaderPolicy)
    requires
        upstream_of(input, policy) is Ok,
    ensures
        valid_upstream(upstream_of(input, policy)->Ok_0),
{
    let end = scheme_end(input);
    let rest = from(input, end + 3);
    lemma_first_match(input, seq![':', '/', '/']);
    let slash = first_index(rest, '/');
    lemma_first_index(rest, '/');
    lemma_authority_is_valid(rest.subrange(0, slash));
    let path = upstream_of(input, policy)->Ok_0.base_path;
    if slash < rest.len() {
        assert forall|i: int| 0 <= i < path.len() implies path[i] != '?' && path[i] != '#' by {
            assert(path[i] == rest[slash + i]);
            assert(rest.contains(rest[slash + i]));
        }
    }
}

/// The characters that an authority may hold beside those of a name.
spec fn authority_char(c: char) -> bool {
    c != '/' && c != '?' && c != '#' && c != '@'
}

proof fn lemma_host_text_chars(host: UpstreamHostView)
    requires
        valid_host(host),
    ensures
        host_text(host).len() > 0,
        forall|i: int| 0 <= i < host_text(host).len() ==> authority_char(
            #[trigger] host_text(host)[i],
        ),
{
    let t = host_text(host);
    match host {
        UpstreamHostView::Name(name) => {
            crate::name::law_canonical_name_parses_to_itself(name);
            assert forall|i: int| 0 <= i < t.len() implies authority_char(#[trigger] t[i]) by {
                crate::name::lemma_canonical_chars(name, i);
            }
        },
        UpstreamHostView::Address(a) => {
            crate::address::lemma_address_chars(a);
            let u = address_text(a);
            assert forall|i: int| 0 <= i < t.len() implies authority_char(#[trigger] t[i]) by {
                if a is V6 && 0 < i < t.len() - 1 {
                    assert(t[i] == u[i - 1]);
                    assert(crate::address::address_char(u[i - 1]));
                } else if a is V4 {
                    assert(crate::address::address_char(u[i]));
                }
            }
        },
    }
}

/// The authority of a valid upstream at an IPv6 address is read back.
#[verifier::spinoff_prover]
proof fn lemma_bracketed_text(groups: Seq<u16>, port: Option<u16>)
    requires
        groups.len() == 8,
        port != Some(0u16),
    ensures
        authority_of(
            host_text(UpstreamHostView::Address(IpAddressView::V6(groups))) + port_text(port),
        ) == Ok::<(UpstreamHostView, Option<u16>), HttpUpstreamErrorView>(
            (UpstreamHostView::Address(IpAddressView::V6(groups)), port),
        ),
{
    let tail = port_text(port);
    let t = ipv6_text(groups);
    let a = host_text(UpstreamHostView::Address(IpAddressView::V6(groups))) + tail;
    let inner = from(a, 1);
    assert(a[0] == '[');
    assert(a.subrange(0, 1) =~= seq!['[']);
    assert(inner =~= t + seq![']'] + tail);
    assert forall|k: int| 0 <= k < t.len() implies inner[k] != ']' by {
        crate::address::lemma_address_chars(IpAddressView::V6(groups));
        assert(inner[k] == t[k]);
        assert(crate::address::address_char(t[k]));
    }
    crate::text::lemma_first_index_is(inner, ']', t.len() as int);
    assert(inner.subrange(0, t.len() as int) =~= t);
    crate::address::law_ipv6_text_reads_back(groups);
    let trailing = from(inner, t.len() as int + 1);
    assert(trailing =~= tail);
    if port is Some {
        lemma_port_text(port->0);
        assert(from(trailing, 1) =~= decimal(port->0 as nat));
    }
    assert(authority_of(a) == bracketed_of(a, inner));
}

/// The authority of a host without brackets is read back.
#[verifier::spinoff_prover]
proof fn lemma_plain_text(host: UpstreamHostView, h: Seq<char>, port: Option<u16>)
    requires
        h.len() > 0,
        host_of(h) == Ok::<UpstreamHostView, HttpUpstreamErrorView>(host),
        forall|k: int| 0 <= k < h.len() ==> #[trigger] h[k] != ':' && h[k] != '[',
        port != Some(0u16),
    ensures
        authority_of(h + port_text(port)) == Ok::<
            (UpstreamHostView, Option<u16>),
            HttpUpstreamErrorView,
        >((host, port)),
{
    let a = h + port_text(port);
    assert(a[0] == h[0]);
    if begins(a, seq!['[']) {
        assert(a.subrange(0, 1)[0] == '[');
    }
    if port is Some {
        lemma_port_text(port->0);
        assert forall|k: int| 0 <= k < h.len() implies a[k] != ':' by {
            assert(a[k] == h[k]);
        }
        crate::text::lemma_first_index_is(a, ':', h.len() as int);
        let d = decimal(port->0 as nat);
        assert(from(a, h.len() as int + 1) =~= d);
        assert(a.subrange(0, h.len() as int) =~= h);
        if d.contains(':') {
            let k = choose|k: int| 0 <= k < d.len() && d[k] == ':';
            assert(is_digit(d[k]));
        }
    } else {
        assert(a =~= h);
        crate::text::lemma_first_index_is(a, ':', h.len() as int);
    }
}

/// The authority of a valid upstream is read back.
#[verifier::spinoff_prover]
proof fn lemma_authority_text(host: UpstreamHostView, port: Option<u16>)
    requires
        valid_host(host),
        port != Some(0u16),
    ensures
        authority_of(host_text(host) + port_text(port)) == Ok::<
            (UpstreamHostView, Option<u16>),
            HttpUpstreamErrorView,
        >((host, port)),
{
    let h = host_text(host);
    match host {
        UpstreamHostView::Address(IpAddressView::V6(groups)) => {
            lemma_bracketed_text(groups, port);
        },
        UpstreamHostView::Name(name) => {
            lemma_host_text_chars(host);
            crate::name::law_canonical_name_parses_to_itself(name);
            assert forall|k: int| 0 <= k < h.len() implies #[trigger] h[k] != ':' && h[k] != '[' by {
                crate::name::lemma_canonical_chars(name, k);
            }
            lemma_plain_text(host, h, port);
        },
        UpstreamHostView::Address(address) => {
            lemma_host_text_chars(host);
            crate::address::law_address_text_reads_back(address);
            assert forall|k: int| 0 <= k < h.len() implies #[trigger] h[k] != ':' && h[k] != '[' by {
                crate::address::lemma_dotted_chars(address->V4_0);
            }
            lemma_plain_text(host, h, port);
        },
    }
}

proof fn lemma_port_text(port: u16)
    requires
        port != 0,
    ensures
        port_of(decimal(port as nat)) == Ok::<u16, HttpUpstreamErrorView>(port),
        all_digits(decimal(port as nat)),
{
    let d = decimal(port as nat);
    lemma_decimal(port as nat);
    if begins(d, seq!['+']) {
        assert(d.subrange(0, 1)[0] == '+');
        assert(is_digit(d[0]));
    }
}

/// The scheme mark of a URL stands directly behind its scheme.
proof fn lemma_scheme_end(scheme: Seq<char>, rest: Seq<char>)
    requires
        !scheme.contains(':'),
    ensures
        ({
            let s = scheme + seq![':', '/', '/'] + rest;
            &&& scheme_end(s) == scheme.len()
            &&& s.subrange(0, scheme.len() as int) == scheme
            &&& from(s, scheme.len() as int + 3) == rest
        }),
{
    let p = seq![':', '/', '/'];
    let s = scheme + p + rest;
    let n = scheme.len() as int;
    assert(from(s, n).subrange(0, 3) =~= p);
    assert forall|k: int| 0 <= k < n implies !begins(#[trigger] from(s, k), p) by {
        if begins(from(s, k), p) {
            assert(from(s, k).subrange(0, 3)[0] == ':');
            assert(s[k] == ':');
            assert(scheme.contains(scheme[k]));
        }
    }
    lemma_first_match_is(s, p, n);
    assert(s.subrange(0, n) =~= scheme);
    assert(from(s, n + 3) =~= rest);
}

/// Where the authority ends and the path begins.
proof fn lemma_rest_parts(authority: Seq<char>, path: Seq<char>)
    requires
        forall|k: int| 0 <= k < authority.len() ==> authority_char(#[trigger] authority[k]),
        path.len() > 0,
        path[0] == '/',
        !path.contains('?'),
        !path.contains('#'),
    ensures
        first_index(authority + path, '/') == authority.len(),
        (authority + path).subrange(0, authority.len() as int) == authority,
        from(authority + path, authority.len() as int) == path,
        !(authority + path).contains('?'),
        !(authority + path).contains('#'),
        !authority.contains('@'),
{
    let rest = authority + path;
    let n = authority.len() as int;
    assert forall|k: int| 0 <= k < n implies rest[k] != '/' by {
        assert(authority_char(authority[k]));
    }
    crate::text::lemma_first_index_is(rest, '/', n);
    assert(rest.subrange(0, n) =~= authority);
    assert(from(rest, n) =~= path);
    assert forall|k: int| 0 <= k < rest.len() implies rest[k] != '?' && rest[k] != '#' by {
        if k < n {
            assert(authority_char(authority[k]));
        } else {
            assert(rest[k] == path[k - n]);
            assert(path.contains(path[k - n]));
        }
    }
    if authority.contains('@') {
        let k = choose|k: int| 0 <= k < authority.len() && authority[k] == '@';
        assert(authority_char(authority[k]));
    }
}

proof fn lemma_authority_chars(host: UpstreamHostView, port: Option<u16>)
    requires
        valid_host(host),
        port != Some(0u16),
    ensures
        ({
            let a = host_text(host) + port_text(port);
            a.len() > 0 && forall|k: int| 0 <= k < a.len() ==> authority_char(#[trigger] a[k])
        }),
{
    let h = host_text(host);
    let a = h + port_text(port);
    lemma_host_text_chars(host);
    if port is Some {
        lemma_port_text(port->0);
    }
    assert forall|k: int| 0 <= k < a.len() implies authority_char(#[trigger] a[k]) by {
        if k < h.len() {
            assert(a[k] == h[k]);
        } else if k > h.len() {
            let d = decimal(port->0 as nat);
            assert(a[k] == d[k - h.len() - 1]);
            assert(is_digit(d[k - h.len() - 1]));
        }
    }
}

proof fn lemma_schemes()
    ensures
        scheme_of("http"@) == Some(HttpScheme::Http),
        scheme_of("https"@) == Some(HttpScheme::Https),
        !"http"@.contains(':'),
        !"https"@.contains(':'),
        "http"@.len() == 4,
        "https"@.len() == 5,
        lowered("http"@) == "http"@,
        lowered("https"@) == "https"@,
{
    reveal_strlit("http");
    reveal_strlit("https");
    assert(lowered("http"@) =~= "http"@);
    assert(lowered("https"@) =~= "https"@);
    assert("http"@.len() != "https"@.len());
}

/// Every valid upstream is read back from its URL.
pub proof fn law_upstream_text_reads_back(u: HttpUpstreamView)
    requires
        valid_upstream(u),
    ensures
        upstream_of(upstream_text(u), u.policy) == Ok::<HttpUpstreamView, HttpUpstreamErrorView>(u),
{
    let scheme = scheme_text(u.scheme);
    let authority = host_text(u.host) + port_text(u.port);
    let rest = authority + u.base_path;
    let s = upstream_text(u);
    assert(s =~= scheme + seq![':', '/', '/'] + rest);
    lemma_schemes();
    lemma_scheme_end(scheme, rest);
    lemma_authority_chars(u.host, u.port);
    lemma_rest_parts(authority, u.base_path);
    lemma_authority_text(u.host, u.port);
}

proof fn lemma_peer_rest(p: PeerServiceView)
    requires
        valid_peer(p.peer),
        valid_service(p.service),
    ensures
        peer_of(p.peer + seq!['/'] + p.service, p.policy) == Some(p),
{
    let rest = p.peer + seq!['/'] + p.service;
    let n = p.peer.len() as int;
    assert forall|k: int| 0 <= k < n implies rest[k] != '/' by {
        assert(rest[k] == p.peer[k]);
        assert(peer_char(p.peer[k]));
    }
    crate::text::lemma_first_index_is(rest, '/', n);
    assert(rest.subrange(0, n) =~= p.peer);
    assert(from(rest, n + 1) =~= p.service);
}

proof fn lemma_peer_scheme()
    ensures
        "supgang"@.len() == 7,
        !"supgang"@.contains(':'),
        lowered("supgang"@) == "supgang"@,
        "supgang://"@ == "supgang"@ + seq![':', '/', '/'],
{
    reveal_strlit("supgang");
    reveal_strlit("supgang://");
    assert("supgang://"@ =~= "supgang"@ + seq![':', '/', '/']);
    assert(lowered("supgang"@) =~= "supgang"@);
}

proof fn lemma_peer_target(input: Seq<char>, p: PeerServiceView)
    requires
        scheme_end(input) <= input.len(),
        lowered(input.subrange(0, scheme_end(input))) == "supgang"@,
        peer_of(from(input, scheme_end(input) + 3), p.policy) == Some(p),
    ensures
        target_of(input, p.policy) == Ok::<MappingTargetView, MappingTargetErrorView>(
            MappingTargetView::Peer(p),
        ),
{
}

/// Every valid peer service is read back from its text.
pub proof fn law_peer_text_reads_back(p: PeerServiceView)
    requires
        valid_peer(p.peer),
        valid_service(p.service),
    ensures
        target_of(peer_text(p), p.policy) == Ok::<MappingTargetView, MappingTargetErrorView>(
            MappingTargetView::Peer(p),
        ),
{
    let scheme = "supgang"@;
    let rest = p.peer + seq!['/'] + p.service;
    assert(scheme_end(peer_text(p)) <= peer_text(p).len() && lowered(
        peer_text(p).subrange(0, scheme_end(peer_text(p))),
    ) == scheme && from(peer_text(p), scheme_end(peer_text(p)) + 3) == rest) by {
        lemma_peer_scheme();
        assert(peer_text(p) =~= scheme + seq![':', '/', '/'] + rest);
        lemma_scheme_end(scheme, rest);
    }
    lemma_peer_rest(p);
    lemma_peer_target(peer_text(p), p);
}

/// A destination that its own text can write.
pub open spec fn valid_target(t: MappingTargetView) -> bool {
    match t {
        MappingTargetView::DnsAddress(a) => a.well_formed(),
        MappingTargetView::DnsAlias(n) => canonical_name(n),
        MappingTargetView::Http(u) => valid_upstream(u),
        MappingTargetView::Peer(p) => valid_peer(p.peer) && valid_service(p.service),
    }
}

/// A text without a slash has no scheme mark.
proof fn lemma_no_scheme(s: Seq<char>)
    requires
        forall|k: int| 0 <= k < s.len() ==> s[k] != '/',
    ensures
        scheme_end(s) > s.len(),
{
    let p = seq![':', '/', '/'];
    lemma_first_match(s, p);
    let i = first_match(s, p);
    if i <= s.len() {
        assert(from(s, i).subrange(0, 3)[1] == '/');
        assert(s[i + 1] == '/');
    }
}

/// Every valid destination is read back from its text, under the policy that
/// it carries where it carries one.
pub proof fn law_target_text_reads_back(t: MappingTargetView, policy: HostHeaderPolicy)
    requires
        valid_target(t),
        t is Http ==> t->Http_0.policy == policy,
        t is Peer ==> t->Peer_0.policy == policy,
    ensures
        target_of(target_text(t), policy) == Ok::<MappingTargetView, MappingTargetErrorView>(t),
{
    let s = target_text(t);
    match t {
        MappingTargetView::DnsAddress(a) => {
            crate::address::lemma_address_chars(a);
            assert forall|k: int| 0 <= k < s.len() implies s[k] != '/' by {
                assert(crate::address::address_char(s[k]));
            }
            lemma_no_scheme(s);
            crate::address::law_address_text_reads_back(a);
        },
        MappingTargetView::DnsAlias(n) => {
            assert forall|k: int| 0 <= k < s.len() implies s[k] != '/' by {
                crate::name::lemma_canonical_chars(n, k);
            }
            lemma_no_scheme(s);
            crate::name::law_canonical_name_parses_to_itself(n);
        },
        MappingTargetView::Http(u) => {
            let scheme = scheme_text(u.scheme);
            let rest = host_text(u.host) + port_text(u.port) + u.base_path;
            lemma_schemes();
            reveal_strlit("supgang");
            assert(s =~= scheme + seq![':', '/', '/'] + rest);
            lemma_scheme_end(scheme, rest);
            assert(scheme.len() != "supgang"@.len());
            law_upstream_text_reads_back(u);
        },
        MappingTargetView::Peer(p) => {
            law_peer_text_reads_back(p);
        },
    }
}

} // verus!
