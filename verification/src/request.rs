//! The parts of an HTTP request that the instrumentation reads, taken out of an
//! `http::Request` as plain values (its header map stays a header map).
use crate::headers::header_entries;
use crate::headers::Entry;
use http::{HeaderMap, HeaderValue, Request, Version};
use vstd::prelude::*;

verus! {

#[verifier::external_type_specification]
#[verifier::external_body]
#[verifier::reject_recursive_types(T)]
pub struct ExRequest<T>(Request<T>);

/// The HTTP protocol versions that `http::Version` names; `Other` stands for
/// any value outside them.
#[derive(Clone, Copy, Debug, PartialEq, Eq)]
pub enum HttpVersion {
    Http09,
    Http10,
    Http11,
    Http2,
    Http3,
    Other,
}

/// A connection endpoint: an IP address in its textual form and a port.
#[derive(Debug)]
pub struct PeerAddr {
    pub ip: String,
    pub port: u16,
}

/// The host and the optional port of a URI's authority.
#[derive(Debug)]
pub struct Authority {
    pub host: String,
    pub port: Option<u16>,
}

/// What the instrumentation reads of a request.
pub struct RequestHead {
    /// The method, as `Method::as_str` writes it.
    pub method: String,
    /// The whole URI, as `Uri`'s `Display` writes it.
    pub uri: String,
    /// The URI's path.
    pub path: String,
    /// The URI's query, if any.
    pub query: Option<String>,
    /// The URI's authority, if any.
    pub authority: Option<Authority>,
    /// The protocol version.
    pub version: HttpVersion,
    /// The request's headers.
    pub headers: HeaderMap<HeaderValue>,
}

impl RequestHead {
    /// The request's header entries.
    pub open spec fn entries(&self) -> Seq<Entry> {
        header_entries(self.headers)
    }

    /// Takes the parts that the instrumentation reads out of a request.
    pub fn from_request<B>(req: &Request<B>) -> (r: RequestHead)
        ensures
            r.version != HttpVersion::Other,
    {
        RequestHead {
            method: request_method(req),
            uri: request_uri(req),
            path: request_path(req),
            query: request_query(req),
            authority: request_authority(req),
            version: request_version(req),
            headers: request_headers(req),
        }
    }
}

/// Calls `Request::method` and `Method::as_str`.
#[verifier::external_body]
fn request_method<B>(req: &Request<B>) -> String {
    req.method().as_str().to_string()
}

/// Calls `Request::uri` and writes the URI with its `Display`.
#[verifier::external_body]
fn request_uri<B>(req: &Request<B>) -> String {
    req.uri().to_string()
}

/// Calls `Uri::path` on the request's URI.
#[verifier::external_body]
fn request_path<B>(req: &Request<B>) -> String {
    req.uri().path().to_string()
}

/// Calls `Uri::query` on the request's URI.
#[verifier::external_body]
fn request_query<B>(req: &Request<B>) -> Option<String> {
    req.uri().query().map(|q| q.to_string())
}

/// Calls `Uri::authority` on the request's URI, and `Authority::host` and
/// `Authority::port_u16` on the authority.
#[verifier::external_body]
fn request_authority<B>(req: &Request<B>) -> Option<Authority> {
    req.uri().authority().map(|a| Authority { host: a.host().to_string(), port: a.port_u16() })
}

/// Calls `Request::version` and tells its values apart. A `Version` is always
/// one of the five named versions: its other variant is never constructed.
#[verifier::external_body]
fn request_version<B>(req: &Request<B>) -> (r: HttpVersion)
    ensures
        r != HttpVersion::Other,
{
    match req.version() {
        Version::HTTP_09 => HttpVersion::Http09,
        Version::HTTP_10 => HttpVersion::Http10,
        Version::HTTP_11 => HttpVersion::Http11,
        Version::HTTP_2 => HttpVersion::Http2,
        Version::HTTP_3 => HttpVersion::Http3,
        _ => HttpVersion::Other,
    }
}

/// Calls `Request::headers` and clones the map.
#[verifier::external_body]
fn request_headers<B>(req: &Request<B>) -> HeaderMap<HeaderValue> {
    req.headers().clone()
}

} // verus!
