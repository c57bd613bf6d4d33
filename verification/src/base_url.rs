//! The public origin of a request, worked out behind any chain of proxies.

use crate::config::ExternalBaseUrl;
use crate::config::ExternalBaseUrlView;
use crate::headers::header_text;
use crate::headers::header_text_of;
use crate::headers::header_values;
use crate::text::chars_of;
use crate::text::copy_range;
use crate::text::decimal;
use crate::text::find_from;
use crate::text::first_index;
use crate::text::join3;
use crate::text::push_decimal;
use crate::text::push_str;
use crate::text::string_of;
use crate::text::strip;
use crate::text::strip_end;
use crate::text::text_eq;
use crate::text::trim;
use crate::text::trim_end_matches;
use crate::text::trim_matches;
use crate::text::CharSet;
use vstd::prelude::*;

verus! {

/// The host and the protocol of the first node of a `Forwarded` header, as
/// RFC 7239 has them: none where the first node is malformed.
pub uninterp spec fn forwarded_first_node(value: Seq<char>) -> Option<
    (Option<Seq<char>>, Option<Seq<char>>),
>;

/// The host and the protocol of the first node of a `Forwarded` header.
///
/// Trusted: the first item of `rfc7239::parse`, of which the fields `host`
/// and `protocol` are handed out as they are; none where that item is an
/// error. `parse` always yields a first item and does not panic.
#[verifier::external_body]
pub(crate) fn first_forwarded_node(value: &str) -> (r: Option<(Option<String>, Option<String>)>)
    ensures
        r.deep_view() == forwarded_first_node(value@),
{
    let mut nodes = rfc7239::parse(value);
    match nodes.next() {
        Some(Ok(node)) => Some(
            (node.host.map(|s| s.to_string()), node.protocol.map(|s| s.to_string())),
        ),
        _ => None,
    }
}

/// Whether `port` is the port that `proto` uses by default.
pub open spec fn default_port_of(proto: Seq<char>, port: u16) -> bool {
    (proto == "http"@ && port == 80) || (proto == "https"@ && port == 443)
}

/// The host to fall back on: the bind host, and the bind port behind a colon
/// unless it is the default port of `http`.
pub open spec fn fallback_host(host: Seq<char>, port: u16) -> Seq<char> {
    if port == 80 {
        host
    } else {
        host + ":"@ + decimal(port as nat)
    }
}

/// A host without its port. A host that starts with `[` ends at its first
/// `]`; a host with exactly one colon ends before it; any other host has no
/// port.
pub open spec fn without_port(host: Seq<char>) -> Seq<char> {
    let colon = first_index(host, ':');
    let bracket = first_index(host, ']');
    if host.len() > 0 && host[0] == '[' {
        if bracket < host.len() {
            host.take(bracket + 1)
        } else {
            host
        }
    } else if colon < host.len() && first_index(host.skip(colon + 1), ':') >= host.skip(
        colon + 1,
    ).len() {
        host.take(colon)
    } else {
        host
    }
}

/// Whether a host, with or without a port, is the local machine.
pub open spec fn is_loopback(host: Seq<char>) -> bool {
    let h = without_port(host);
    h == "localhost"@ || h == "127.0.0.1"@ || h == "::1"@ || h == "[::1]"@
}

/// The protocol to assume of a host that no header gives: `http` for the
/// local machine, `https` for any other host.
pub open spec fn protocol_of_host(host: Seq<char>) -> Seq<char> {
    if is_loopback(host) {
        "http"@
    } else {
        "https"@
    }
}

/// A value, unless it is absent or empty.
pub open spec fn non_empty(value: Option<Seq<char>>) -> Option<Seq<char>> {
    match value {
        Some(s) => if s.len() > 0 {
            Some(s)
        } else {
            None
        },
        None => None,
    }
}

/// A header's text without white space at its ends, unless nothing is left.
pub open spec fn trimmed(value: Option<Seq<char>>) -> Option<Seq<char>> {
    match value {
        Some(s) => non_empty(Some(strip(s, CharSet::Whitespace))),
        None => None,
    }
}

/// A parameter of a `Forwarded` node without the quotes around it, unless
/// nothing is left.
pub open spec fn unquoted(value: Option<Seq<char>>) -> Option<Seq<char>> {
    match value {
        Some(s) => non_empty(Some(strip(s, CharSet::Only('"')))),
        None => None,
    }
}

/// The host and the protocol that a `Forwarded` header gives.
pub open spec fn forwarded_source(header: Option<Seq<char>>) -> (
    Option<Seq<char>>,
    Option<Seq<char>>,
) {
    match header {
        Some(value) => match forwarded_first_node(value) {
            Some(node) => (unquoted(node.0), unquoted(node.1)),
            None => (None, None),
        },
        None => (None, None),
    }
}

/// The first of three values that is there.
pub open spec fn first_of(
    a: Option<Seq<char>>,
    b: Option<Seq<char>>,
    c: Option<Seq<char>>,
) -> Option<Seq<char>> {
    if a is Some {
        a
    } else if b is Some {
        b
    } else {
        c
    }
}

/// The origin that three sources and the bind address give. The host is the
/// first that a source gives, else the fallback host. The protocol is the
/// first that a source gives; else, where a source gave the host, the one
/// assumed of that host; else `http`.
pub open spec fn inferred_url(
    forwarded: (Option<Seq<char>>, Option<Seq<char>>),
    x_forwarded: (Option<Seq<char>>, Option<Seq<char>>),
    host_header: (Option<Seq<char>>, Option<Seq<char>>),
    bind_host: Seq<char>,
    bind_port: u16,
) -> Seq<char> {
    let from_headers = first_of(forwarded.0, x_forwarded.0, host_header.0);
    let host = match from_headers {
        Some(h) => h,
        None => fallback_host(bind_host, bind_port),
    };
    let protocol = match first_of(forwarded.1, x_forwarded.1, host_header.1) {
        Some(p) => p,
        None => match from_headers {
            Some(h) => protocol_of_host(h),
            None => "http"@,
        },
    };
    protocol + "://"@ + host
}

/// The origin that the headers of a request and the bind address give.
pub open spec fn url_from_headers(
    values: Map<Seq<char>, Seq<u8>>,
    bind_host: Seq<char>,
    bind_port: u16,
) -> Seq<char> {
    inferred_url(
        forwarded_source(header_text_of(values, "forwarded"@)),
        (
            trimmed(header_text_of(values, "x-forwarded-host"@)),
            trimmed(header_text_of(values, "x-forwarded-proto"@)),
        ),
        (
            trimmed(
                if header_text_of(values, "host"@) is Some {
                    header_text_of(values, "host"@)
                } else {
                    header_text_of(values, ":authority"@)
                },
            ),
            None,
        ),
        bind_host,
        bind_port,
    )
}

/// The external base URL of a request: the configured URL without slashes
/// at its end, or, where the configuration says `auto`, the origin that the
/// headers give.
pub open spec fn resolved_url(
    config: ExternalBaseUrlView,
    values: Map<Seq<char>, Seq<u8>>,
    bind_host: Seq<char>,
    bind_port: u16,
) -> Seq<char> {
    match config {
        ExternalBaseUrlView::Fixed(url) => strip_end(url, CharSet::Only('/')),
        ExternalBaseUrlView::Auto => url_from_headers(values, bind_host, bind_port),
    }
}

/// Whether `port` is the port that `proto` uses by default.
pub fn is_default_port(proto: &str, port: u16) -> (r: bool)
    ensures
        r == default_port_of(proto@, port),
{
    (text_eq(proto, "http") && port == 80) || (text_eq(proto, "https") && port == 443)
}

/// The host to fall back on.
pub fn format_fallback_host(host: &str, port: u16) -> (r: String)
    ensures
        r@ == fallback_host(host@, port),
{
    proof {
        reveal_strlit("http");
        reveal_strlit("https");
        assert("http"@.len() == 4);
        assert("https"@.len() == 5);
        assert(default_port_of("http"@, port) == (port == 80));
    }
    if is_default_port("http", port) {
        String::from_str(host)
    } else {
        let mut out: Vec<char> = Vec::new();
        push_str(&mut out, host);
        push_str(&mut out, ":");
        push_decimal(&mut out, port as u64);
        assert(out@ =~= host@ + ":"@ + decimal(port as nat));
        string_of(out.as_slice())
    }
}

/// A host without its port.
pub fn host_without_port(host: &str) -> (r: String)
    ensures
        r@ == without_port(host@),
{
    let v = chars_of(host);
    assert(v@.skip(0) == v@);
    let n = v.len();
    if n > 0 && v[0] == '[' {
        let b = find_from(v.as_slice(), 0, ']');
        if b < n {
            let out = copy_range(v.as_slice(), 0, b + 1);
            assert(v@.subrange(0, b + 1) == v@.take(b + 1));
            string_of(out.as_slice())
        } else {
            String::from_str(host)
        }
    } else {
        let c = find_from(v.as_slice(), 0, ':');
        if c < n && find_from(v.as_slice(), c + 1, ':') >= n {
            let out = copy_range(v.as_slice(), 0, c);
            assert(v@.subrange(0, c as int) == v@.take(c as int));
            string_of(out.as_slice())
        } else {
            String::from_str(host)
        }
    }
}

/// Whether a host, with or without a port, is the local machine.
pub fn is_loopback_host(host: &str) -> (r: bool)
    ensures
        r == is_loopback(host@),
{
    let h = host_without_port(host);
    text_eq(h.as_str(), "localhost") || text_eq(h.as_str(), "127.0.0.1") || text_eq(
        h.as_str(),
        "::1",
    ) || text_eq(h.as_str(), "[::1]")
}

/// The protocol to assume of a host that no header gives.
pub fn infer_protocol_from_host(host: &str) -> (r: &'static str)
    ensures
        r@ == protocol_of_host(host@),
{
    if is_loopback_host(host) {
        "http"
    } else {
        "https"
    }
}

/// A value, unless it is absent or empty.
fn keep_non_empty(value: String) -> (r: Option<String>)
    ensures
        r.deep_view() == non_empty(Some(value@)),
{
    if value.as_str().unicode_len() > 0 {
        Some(value)
    } else {
        None
    }
}

/// A header's text without white space at its ends, unless nothing is left.
fn trimmed_header(value: &Option<String>) -> (r: Option<String>)
    ensures
        r.deep_view() == trimmed(value.deep_view()),
{
    match value {
        Some(s) => keep_non_empty(trim(s.as_str())),
        None => None,
    }
}

/// A parameter without the quotes around it, unless nothing is left.
fn unquoted_parameter(value: &Option<String>) -> (r: Option<String>)
    ensures
        r.deep_view() == unquoted(value.deep_view()),
{
    match value {
        Some(s) => keep_non_empty(trim_matches(s.as_str(), '"')),
        None => None,
    }
}

/// The host and the protocol that a `Forwarded` header gives.
pub fn try_forwarded(header: &Option<String>) -> (r: (Option<String>, Option<String>))
    ensures
        r.deep_view() == forwarded_source(header.deep_view()),
{
    match header {
        Some(value) => match first_forwarded_node(value.as_str()) {
            Some(node) => (unquoted_parameter(&node.0), unquoted_parameter(&node.1)),
            None => (None, None),
        },
        None => (None, None),
    }
}

/// The first of three values that is there.
fn first_present<'a>(a: &'a Option<String>, b: &'a Option<String>, c: &'a Option<String>) -> (r:
    &'a Option<String>)
    ensures
        r.deep_view() == first_of(a.deep_view(), b.deep_view(), c.deep_view()),
{
    if a.is_some() {
        a
    } else if b.is_some() {
        b
    } else {
        c
    }
}

/// The origin that three sources and the bind address give.
pub fn infer_from_sources(
    forwarded: &(Option<String>, Option<String>),
    x_forwarded: &(Option<String>, Option<String>),
    host_header: &(Option<String>, Option<String>),
    bind_host: &str,
    bind_port: u16,
) -> (r: String)
    ensures
        r@ == inferred_url(
            forwarded.deep_view(),
            x_forwarded.deep_view(),
            host_header.deep_view(),
            bind_host@,
            bind_port,
        ),
{
    let from_headers = first_present(&forwarded.0, &x_forwarded.0, &host_header.0);
    let protocol = first_present(&forwarded.1, &x_forwarded.1, &host_header.1);
    let host: String = match from_headers {
        Some(h) => h.clone(),
        None => format_fallback_host(bind_host, bind_port),
    };
    match protocol {
        Some(p) => join3(p.as_str(), "://", host.as_str()),
        None => match from_headers {
            Some(h) => join3(infer_protocol_from_host(h.as_str()), "://", host.as_str()),
            None => join3("http", "://", host.as_str()),
        },
    }
}

/// The origin that the headers of a request and the bind address give.
pub fn infer_from_headers(
    headers: &http::HeaderMap<http::HeaderValue>,
    fallback_host: &str,
    fallback_port: u16,
) -> (r: String)
    ensures
        r@ == url_from_headers(header_values(*headers), fallback_host@, fallback_port),
{
    let forwarded = try_forwarded(&header_text(headers, "forwarded"));
    let x_forwarded = (
        trimmed_header(&header_text(headers, "x-forwarded-host")),
        trimmed_header(&header_text(headers, "x-forwarded-proto")),
    );
    let host = header_text(headers, "host");
    let host_header = if host.is_some() {
        (trimmed_header(&host), None)
    } else {
        (trimmed_header(&header_text(headers, ":authority")), None)
    };
    infer_from_sources(&forwarded, &x_forwarded, &host_header, fallback_host, fallback_port)
}

/// The external base URL of a request.
pub fn resolve_base_url(
    config: &ExternalBaseUrl,
    headers: &http::HeaderMap<http::HeaderValue>,
    fallback_host: &str,
    fallback_port: u16,
) -> (r: String)
    ensures
        r@ == resolved_url(config@, header_values(*headers), fallback_host@, fallback_port),
{
    match config {
        ExternalBaseUrl::Fixed(url) => trim_end_matches(url.as_str(), '/'),
        ExternalBaseUrl::Auto => infer_from_headers(headers, fallback_host, fallback_port),
    }
}

} // verus!
