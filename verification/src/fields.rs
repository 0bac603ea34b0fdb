//! The fields of HTTP spans, as the OpenTelemetry HTTP conventions name them,
//! computed from a request for each kind of instrumented service.
use crate::grpc::{peer_ip, peer_port};
use crate::headers::{
    header_map_get, header_text, header_value_text, header_value_to_str, lookup, lookup_text, Entry,
};
use crate::helper::{
    compute_approximate_request_body_size, compute_approximate_request_size, content_length_of,
    fitting, request_size_of,
};
use crate::host::{
    extract_server_address_and_port, extract_server_conn_info, host_address_and_port,
    server_address_and_port, server_host_candidate_of,
};
use crate::request::{HttpVersion, PeerAddr, RequestHead};
use crate::text::{decimal, str_equal, to_owned_string, u16_to_string};
use vstd::prelude::*;

verus! {

/// The version as `get_http_version` names it.
pub open spec fn version_name(v: HttpVersion) -> Option<Seq<char>> {
    match v {
        HttpVersion::Http09 => Some("0.9"@),
        HttpVersion::Http10 => Some("1.0"@),
        HttpVersion::Http11 => Some("1.1"@),
        HttpVersion::Http2 => Some("2"@),
        HttpVersion::Http3 => Some("3"@),
        HttpVersion::Other => None,
    }
}

/// The version as `http::Version`'s `Debug` writes it.
pub open spec fn version_debug(v: HttpVersion) -> Seq<char> {
    match v {
        HttpVersion::Http09 => "HTTP/0.9"@,
        HttpVersion::Http10 => "HTTP/1.0"@,
        HttpVersion::Http11 => "HTTP/1.1"@,
        HttpVersion::Http2 => "HTTP/2.0"@,
        HttpVersion::Http3 => "HTTP/3.0"@,
        HttpVersion::Other => seq![],
    }
}

/// The version number: its `Debug` text without `HTTP/`.
pub open spec fn version_number(v: HttpVersion) -> Seq<char> {
    match v {
        HttpVersion::Http09 => "0.9"@,
        HttpVersion::Http10 => "1.0"@,
        HttpVersion::Http11 => "1.1"@,
        HttpVersion::Http2 => "2.0"@,
        HttpVersion::Http3 => "3.0"@,
        HttpVersion::Other => seq![],
    }
}

/// The route of a request: the matched route when the router found one, the
/// fallback otherwise.
pub open spec fn route_of(matched_path: Option<String>, fallback: Seq<char>) -> Seq<char> {
    match matched_path {
        Some(m) => m@,
        None => fallback,
    }
}

/// The port of an endpoint, as text.
pub open spec fn peer_port_text(peer: Option<PeerAddr>) -> Option<Seq<char>> {
    match peer {
        Some(p) => Some(decimal(p.port as nat)),
        None => None,
    }
}

/// The `User-Agent` header is absent or printable.
pub open spec fn user_agent_printable(entries: Seq<Entry>) -> bool {
    lookup(entries, "user-agent"@) matches Some(v) ==> header_value_text(v) is Some
}

/// Whether the `User-Agent` header is absent or printable, as the span fields
/// require of a request.
pub fn user_agent_is_printable(head: &RequestHead) -> (r: bool)
    ensures
        r == user_agent_printable(head.entries()),
{
    match header_map_get(&head.headers, "user-agent") {
        Some(v) => {
            assert(lookup(head.entries(), "user-agent"@) == Some(v@));
            header_value_to_str(&v).is_some()
        },
        None => true,
    }
}

/// The name of a version, as written in a span's protocol version field.
pub fn get_http_version(head: &RequestHead) -> (r: Option<&'static str>)
    ensures
        r.deep_view() == version_name(head.version),
{
    match head.version {
        HttpVersion::Http09 => Some("0.9"),
        HttpVersion::Http10 => Some("1.0"),
        HttpVersion::Http11 => Some("1.1"),
        HttpVersion::Http2 => Some("2"),
        HttpVersion::Http3 => Some("3"),
        HttpVersion::Other => None,
    }
}

/// The version as `http::Version`'s `Debug` writes it; `Debug` has no text for
/// a value outside the five versions.
pub fn version_debug_text(v: HttpVersion) -> (r: &'static str)
    requires
        v != HttpVersion::Other,
    ensures
        r@ == version_debug(v),
{
    match v {
        HttpVersion::Http09 => "HTTP/0.9",
        HttpVersion::Http10 => "HTTP/1.0",
        HttpVersion::Http11 => "HTTP/1.1",
        HttpVersion::Http2 => "HTTP/2.0",
        HttpVersion::Http3 => "HTTP/3.0",
        HttpVersion::Other => "",
    }
}

/// The version number: the `Debug` text of the version without `HTTP/`.
pub fn version_number_text(v: HttpVersion) -> (r: &'static str)
    requires
        v != HttpVersion::Other,
    ensures
        r@ == version_number(v),
{
    match v {
        HttpVersion::Http09 => "0.9",
        HttpVersion::Http10 => "1.0",
        HttpVersion::Http11 => "1.1",
        HttpVersion::Http2 => "2.0",
        HttpVersion::Http3 => "3.0",
        HttpVersion::Other => "",
    }
}

/// `first`, a separator and `second`, joined.
fn join3(first: &str, sep: &str, second: &str) -> (r: String)
    ensures
        r@ == first@ + sep@ + second@,
{
    let mut s = String::from_str(first);
    s.append(sep);
    s.append(second);
    s
}

fn peer_parts(peer: Option<PeerAddr>) -> (r: (Option<String>, Option<u16>))
    ensures
        r.0.deep_view() == peer_ip(peer),
        r.1 == peer_port(peer),
{
    match peer {
        Some(p) => (Some(p.ip), Some(p.port)),
        None => (None, None),
    }
}

/// The fields of an HTTP server span whose server address comes from the
/// request's headers and URI.
pub struct HttpServerSpanFields {
    pub server_address: Option<String>,
    pub server_port: Option<String>,
    pub client_address: Option<String>,
    pub client_port: Option<String>,
    pub method: String,
    pub route: String,
    pub user_agent: Option<String>,
    pub url_path: String,
    pub url_query: Option<String>,
    /// The span's name: `<method> <route>`.
    pub otel_name: String,
}

/// The fields of an HTTP server span, given the route the router matched and
/// the client's endpoint.
pub fn http_server_span_fields(head: &RequestHead, matched_path: Option<String>, client: Option<PeerAddr>) -> (r:
    HttpServerSpanFields)
    ensures
        (r.server_address.deep_view(), r.server_port.deep_view()) == server_address_and_port(*head),
        r.client_address.deep_view() == peer_ip(client),
        r.client_port.deep_view() == peer_port_text(client),
        r.method@ == head.method@,
        r.route@ == route_of(matched_path, head.path@),
        r.user_agent.deep_view() == lookup_text(head.entries(), "user-agent"@),
        r.url_path@ == head.path@,
        r.url_query.deep_view() == head.query.deep_view(),
        r.otel_name@ == head.method@ + " "@ + route_of(matched_path, head.path@),
{
    let (server_address, server_port) = extract_server_address_and_port(head);
    let route = match matched_path {
        Some(m) => m,
        None => head.path.clone(),
    };
    let (client_address, client_port) = match client {
        Some(p) => (Some(p.ip), Some(u16_to_string(p.port))),
        None => (None, None),
    };
    let otel_name = join3(head.method.as_str(), " ", route.as_str());
    HttpServerSpanFields {
        server_address,
        server_port,
        client_address,
        client_port,
        method: head.method.clone(),
        route,
        user_agent: header_text(&head.headers, "user-agent"),
        url_path: head.path.clone(),
        url_query: head.query.clone(),
        otel_name,
    }
}

/// The fields of an axum server span.
pub struct AxumServerSpanFields {
    /// The protocol version number, such as `1.1`.
    pub protocol_version: String,
    pub server_address: Option<String>,
    pub server_port: Option<u16>,
    pub client_address: Option<String>,
    pub client_port: Option<u16>,
    pub method: String,
    pub route: String,
    pub url_path: String,
    pub url_query: Option<String>,
    pub user_agent: Option<String>,
    /// The span's name: `<method> <route>`.
    pub otel_name: String,
}

/// The fields of an axum server span, given the request's original path and
/// query (as the router received them), the route it matched, the client's
/// endpoint, and what resolving the server host gave.
pub fn axum_server_span_fields(
    head: &RequestHead,
    original_path: String,
    original_query: Option<String>,
    matched_path: Option<String>,
    client: Option<PeerAddr>,
    resolved: Option<(String, u16)>,
) -> (r: AxumServerSpanFields)
    requires
        head.version != HttpVersion::Other,
        user_agent_printable(head.entries()),
    ensures
        r.protocol_version@ == version_number(head.version),
        (r.server_address.deep_view(), r.server_port) == match server_host_candidate_of(head.entries()) {
            Some(host) => host_address_and_port(host, resolved.deep_view()),
            None => (None, None),
        },
        r.client_address.deep_view() == peer_ip(client),
        r.client_port == peer_port(client),
        r.method@ == head.method@,
        r.route@ == route_of(matched_path, original_path@),
        r.url_path@ == original_path@,
        r.url_query.deep_view() == original_query.deep_view(),
        r.user_agent.deep_view() == lookup_text(head.entries(), "user-agent"@),
        r.otel_name@ == head.method@ + " "@ + route_of(matched_path, original_path@),
{
    let (server_address, server_port) = extract_server_conn_info(head, resolved);
    let route = match matched_path {
        Some(m) => m,
        None => original_path.clone(),
    };
    let (client_address, client_port) = peer_parts(client);
    let otel_name = join3(head.method.as_str(), " ", route.as_str());
    AxumServerSpanFields {
        protocol_version: String::from_str(version_number_text(head.version)),
        server_address,
        server_port,
        client_address,
        client_port,
        method: head.method.clone(),
        route,
        url_path: original_path,
        url_query: original_query,
        user_agent: header_text(&head.headers, "user-agent"),
        otel_name,
    }
}

/// The fields of an HTTP server span that also carries the request's sizes.
pub struct SizedServerSpanFields {
    /// The protocol version as `http::Version`'s `Debug` writes it.
    pub protocol_version: String,
    pub local_address: String,
    pub local_port: u16,
    pub peer_address: Option<String>,
    pub peer_port: Option<u16>,
    pub method: String,
    pub route: String,
    pub url_path: String,
    pub url_query: Option<String>,
    pub user_agent: Option<String>,
    pub request_size: usize,
    pub request_body_size: usize,
    /// The span's name: `<method> <route>`.
    pub otel_name: String,
}

/// The fields of an HTTP server span with sizes, given the request's original
/// path and query, the route it matched (the empty route when none) and the
/// peer's endpoint; the local endpoint is not known and reads `unknown`, 0.
pub fn sized_server_span_fields(
    head: &RequestHead,
    original_path: String,
    original_query: Option<String>,
    matched_path: Option<String>,
    peer: Option<PeerAddr>,
) -> (r: SizedServerSpanFields)
    requires
        head.version != HttpVersion::Other,
        user_agent_printable(head.entries()),
        fitting(request_size_of(*head)) is Some,
    ensures
        r.protocol_version@ == version_debug(head.version),
        r.local_address@ == "unknown"@,
        r.local_port == 0,
        r.peer_address.deep_view() == peer_ip(peer),
        r.peer_port == peer_port(peer),
        r.method@ == head.method@,
        r.route@ == route_of(matched_path, seq![]),
        r.url_path@ == original_path@,
        r.url_query.deep_view() == original_query.deep_view(),
        r.user_agent.deep_view() == lookup_text(head.entries(), "user-agent"@),
        Some(r.request_size as nat) == request_size_of(*head),
        Some(r.request_body_size as nat) == content_length_of(head.entries()),
        r.otel_name@ == head.method@ + " "@ + route_of(matched_path, seq![]),
{
    let route = match matched_path {
        Some(m) => m,
        None => String::new(),
    };
    let (peer_address, peer_port) = peer_parts(peer);
    let otel_name = join3(head.method.as_str(), " ", route.as_str());
    let request_size = compute_approximate_request_size(head);
    let request_body_size = compute_approximate_request_body_size(head);
    SizedServerSpanFields {
        protocol_version: String::from_str(version_debug_text(head.version)),
        local_address: String::from_str("unknown"),
        local_port: 0,
        peer_address,
        peer_port,
        method: head.method.clone(),
        route,
        url_path: original_path,
        url_query: original_query,
        user_agent: header_text(&head.headers, "user-agent"),
        request_size,
        request_body_size,
        otel_name,
    }
}

/// The URL of a request as a client writes it: the URI's text, without the `/`
/// that `Uri` writes for an absolute URI whose path is empty and that has no
/// query (so `https://example.com` stays as it was given).
pub open spec fn url_as_written(head: RequestHead) -> Seq<char> {
    if head.authority is Some && head.path@ == "/"@ && head.query is None && head.uri@.len() > 0
        && head.uri@.last() == '/' {
        head.uri@.drop_last()
    } else {
        head.uri@
    }
}

/// The URL of a request as a client writes it.
pub fn url_text(head: &RequestHead) -> (r: String)
    ensures
        r@ == url_as_written(*head),
{
    proof {
        reveal_strlit("/");
    }
    let n = head.uri.as_str().unicode_len();
    if head.authority.is_some() && str_equal(head.path.as_str(), "/") && head.query.is_none() && n > 0
        && head.uri.as_str().get_char(n - 1) == '/' {
        let r = to_owned_string(head.uri.as_str().substring_char(0, n - 1));
        proof {
            assert(r@ =~= head.uri@.drop_last());
        }
        r
    } else {
        head.uri.clone()
    }
}

/// The fields of an HTTP client span.
pub struct ClientSpanFields {
    /// The protocol version as `http::Version`'s `Debug` writes it.
    pub protocol_version: String,
    pub peer_address: Option<String>,
    pub peer_port: Option<u16>,
    pub server_address: Option<String>,
    pub server_port: Option<u16>,
    pub method: String,
    pub url_full: String,
    pub user_agent: Option<String>,
    /// The span's name: `<method> <url>`.
    pub otel_name: String,
}

/// The fields of an HTTP client span, given the connection's local and remote
/// endpoints.
pub fn client_span_fields(head: &RequestHead, local: Option<PeerAddr>, remote: Option<PeerAddr>) -> (r:
    ClientSpanFields)
    requires
        head.version != HttpVersion::Other,
        user_agent_printable(head.entries()),
    ensures
        r.protocol_version@ == version_debug(head.version),
        r.peer_address.deep_view() == peer_ip(remote),
        r.peer_port == peer_port(remote),
        r.server_address.deep_view() == peer_ip(local),
        r.server_port == peer_port(local),
        r.method@ == head.method@,
        r.url_full@ == head.uri@,
        r.user_agent.deep_view() == lookup_text(head.entries(), "user-agent"@),
        r.otel_name@ == head.method@ + " "@ + url_as_written(*head),
{
    let (peer_address, peer_port) = peer_parts(remote);
    let (server_address, server_port) = peer_parts(local);
    ClientSpanFields {
        protocol_version: String::from_str(version_debug_text(head.version)),
        peer_address,
        peer_port,
        server_address,
        server_port,
        method: head.method.clone(),
        url_full: head.uri.clone(),
        user_agent: header_text(&head.headers, "user-agent"),
        otel_name: join3(head.method.as_str(), " ", url_text(head).as_str()),
    }
}

} // verus!
