//! URLs of the browser under test: which pages stay within the tested
//! domain, and how a link is resolved against the page it is on.
//!
//! Parsing and resolving URLs is left to the `url` crate; the library
//! decides on the hosts and ports that it reports.
use vstd::prelude::*;

use url::{Host, ParseError, Url};

verus! {

#[verifier::external_type_specification]
#[verifier::external_body]
pub struct ExUrl(Url);

#[verifier::external_type_specification]
#[verifier::external_body]
pub struct ExParseError(ParseError);

/// `Url::clone`: the crate derives `Clone` for `Url`, which copies every
/// field, so the copy is the same URL.
pub assume_specification[ <url::Url as std::clone::Clone>::clone ](u: &url::Url) -> (r: url::Url)
    ensures
        r == *u,
;

/// The host of a URL, as the `url` crate parses it.
#[derive(Clone, Debug)]
pub enum UrlHost {
    /// A domain name, or the opaque host of a URL of another scheme.
    Domain(String),
    /// An IPv4 address, as a big-endian number.
    Ipv4(u32),
    /// An IPv6 address, as a big-endian number.
    Ipv6(u128),
}

/// Why a URL could not be resolved.
#[derive(Debug)]
pub enum UrlError {
    /// The `url` crate refused the input.
    Invalid(ParseError),
}

/// The host that the `url` crate parsed out of a URL.
pub uninterp spec fn url_host(url: Url) -> Option<UrlHost>;

/// The port that the `url` crate parsed out of a URL.
pub uninterp spec fn url_port(url: Url) -> Option<u16>;

/// What the `url` crate gives when `input` is resolved against `base`.
pub uninterp spec fn url_join(base: Url, input: Seq<char>) -> Result<Url, ParseError>;

/// `Url::host`: the host of the URL, if it has one. Each variant of the
/// crate's `Host` is carried over with its contents; nothing is claimed of
/// which host the crate parses.
#[verifier::external_body]
fn host_of(url: &Url) -> (r: Option<UrlHost>)
    ensures
        r == url_host(*url),
{
    match url.host() {
        None => None,
        Some(Host::Domain(domain)) => Some(UrlHost::Domain(domain.to_string())),
        Some(Host::Ipv4(address)) => Some(UrlHost::Ipv4(u32::from(address))),
        Some(Host::Ipv6(address)) => Some(UrlHost::Ipv6(u128::from(address))),
    }
}

/// `Url::port`: the port written in the URL, if any (a port that is the
/// default of the scheme is not written).
#[verifier::external_body]
fn port_of(url: &Url) -> (r: Option<u16>)
    ensures
        r == url_port(*url),
{
    url.port()
}

/// `Url::join`: `input` resolved against `base`, by the rules of the WHATWG
/// URL standard that the crate implements.
#[verifier::external_body]
fn join(base: &Url, input: &str) -> (r: Result<Url, ParseError>)
    ensures
        r == url_join(*base, input@),
{
    base.join(input)
}

/// What `Url::as_str` gives: the serialization of the URL.
pub uninterp spec fn url_text(url: Url) -> Seq<char>;

/// `Url::as_str`: the URL as the crate serialized it.
#[verifier::external_body]
pub(crate) fn text_of(url: &Url) -> (r: &str)
    ensures
        r@ == url_text(*url),
{
    url.as_str()
}

/// Two hosts are the same: the same variant, with the same contents.
pub open spec fn same_host(a: UrlHost, b: UrlHost) -> bool {
    match (a, b) {
        (UrlHost::Domain(x), UrlHost::Domain(y)) => x@ == y@,
        (UrlHost::Ipv4(x), UrlHost::Ipv4(y)) => x == y,
        (UrlHost::Ipv6(x), UrlHost::Ipv6(y)) => x == y,
        _ => false,
    }
}

/// Two optional hosts are the same.
pub open spec fn same_optional_host(a: Option<UrlHost>, b: Option<UrlHost>) -> bool {
    match (a, b) {
        (None, None) => true,
        (Some(x), Some(y)) => same_host(x, y),
        _ => false,
    }
}

/// A page with `host` and `port` is within a domain with `domain_host` and
/// `domain_port`: the host is absent or the domain's, and so is the port.
pub open spec fn within(
    host: Option<UrlHost>,
    port: Option<u16>,
    domain_host: Option<UrlHost>,
    domain_port: Option<u16>,
) -> bool {
    (host is None || same_optional_host(host, domain_host)) && (port is None || port == domain_port)
}

/// Every page is within its own domain; a page without host or port is
/// within any domain; a page whose host differs from the domain's, or
/// whose port is written and differs from the domain's, is not within it.
pub proof fn law_pages_within_a_domain(
    host: Option<UrlHost>,
    port: Option<u16>,
    domain_host: Option<UrlHost>,
    domain_port: Option<u16>,
)
    ensures
        within(host, port, host, port),
        within(None, None, domain_host, domain_port),
        host matches Some(h) && domain_host matches Some(d) && !same_host(h, d) ==> !within(
            host,
            port,
            domain_host,
            domain_port,
        ),
        host is Some && domain_host is None ==> !within(host, port, domain_host, domain_port),
        port is Some && port != domain_port ==> !within(host, port, domain_host, domain_port),
{
    match host {
        Some(h) => match h {
            UrlHost::Domain(x) => {},
            _ => {},
        },
        None => {},
    }
}

fn hosts_equal(a: &Option<UrlHost>, b: &Option<UrlHost>) -> (r: bool)
    ensures
        r == same_optional_host(*a, *b),
{
    match (a, b) {
        (None, None) => true,
        (Some(UrlHost::Domain(x)), Some(UrlHost::Domain(y))) => x.eq(y),
        (Some(UrlHost::Ipv4(x)), Some(UrlHost::Ipv4(y))) => x == y,
        (Some(UrlHost::Ipv6(x)), Some(UrlHost::Ipv6(y))) => x == y,
        _ => false,
    }
}

/// Whether a page with `host` and `port` lies within the domain with
/// `domain_host` and `domain_port`.
pub fn is_within(
    host: &Option<UrlHost>,
    port: Option<u16>,
    domain_host: &Option<UrlHost>,
    domain_port: Option<u16>,
) -> (r: bool)
    ensures
        r == within(*host, port, *domain_host, domain_port),
{
    let host_ok = match host {
        None => true,
        Some(_) => hosts_equal(host, domain_host),
    };
    let port_ok = match port {
        None => true,
        Some(p) => match domain_port {
            Some(q) => p == q,
            None => false,
        },
    };
    host_ok && port_ok
}

/// Whether `uri` lies within the domain of `domain`: its host, if it has
/// one, is the domain's, and so is its port.
pub fn is_within_domain(uri: &Url, domain: &Url) -> (r: bool)
    ensures
        r == within(url_host(*uri), url_port(*uri), url_host(*domain), url_port(*domain)),
{
    let host = host_of(uri);
    let port = port_of(uri);
    let domain_host = host_of(domain);
    let domain_port = port_of(domain);
    is_within(&host, port, &domain_host, domain_port)
}

/// The library's answer for what the `url` crate gave when resolving a
/// link: the URL, or the crate's error.
pub open spec fn resolved(joined: Result<Url, ParseError>) -> Result<Url, UrlError> {
    match joined {
        Ok(url) => Ok(url),
        Err(e) => Err(UrlError::Invalid(e)),
    }
}

/// The answer for what resolving a link gave.
pub fn resolution(joined: Result<Url, ParseError>) -> (r: Result<Url, UrlError>)
    ensures
        r == resolved(joined),
{
    match joined {
        Ok(url) => Ok(url),
        Err(e) => Err(UrlError::Invalid(e)),
    }
}

/// The URL that `string` points to on the page at `context`, as a browser
/// resolves a link.
pub fn parse_browser_url(string: &str, context: &Url) -> (r: Result<Url, UrlError>)
    ensures
        r == resolved(url_join(*context, string@)),
{
    resolution(join(context, string))
}

} // verus!
