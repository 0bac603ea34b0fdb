//! The attributes of the HTTP server metrics: what a request contributes when
//! it arrives, and the labels its measurements carry once it is answered.
use crate::headers::{header_text, lookup_text};
use crate::helper::{compute_approximate_request_size, fitting, request_size_of};
use crate::request::RequestHead;
use crate::response::status_code_text;
use crate::text::decimal;
use vstd::prelude::*;

verus! {

/// What the metrics keep of a request while it is being answered.
pub struct RequestMetricAttributes {
    /// The request's method, the label of the active-requests counter.
    pub method: String,
    /// The matched route, or the empty route.
    pub route: String,
    /// The printable `Host` header, or `unknown`.
    pub server_address: String,
    /// The approximate request size.
    pub request_size: u64,
}

/// The labels of a request's measurements.
pub struct MetricLabels {
    pub method: String,
    pub route: String,
    /// The response status code as text.
    pub status_code: String,
    pub server_address: String,
}

/// The server address label: the printable `Host` header, or `unknown`.
pub open spec fn host_label(head: RequestHead) -> Seq<char> {
    match lookup_text(head.entries(), "host"@) {
        Some(h) => h,
        None => "unknown"@,
    }
}

/// What the metrics keep of a request, given the route the router matched.
pub fn request_metric_attributes(head: &RequestHead, matched_path: Option<String>) -> (r: RequestMetricAttributes)
    requires
        fitting(request_size_of(*head)) is Some,
    ensures
        r.method@ == head.method@,
        r.route@ == match matched_path {
            Some(m) => m@,
            None => seq![],
        },
        r.server_address@ == host_label(*head),
        Some(r.request_size as nat) == request_size_of(*head),
{
    let route = match matched_path {
        Some(m) => m,
        None => String::new(),
    };
    let server_address = match header_text(&head.headers, "host") {
        Some(h) => h,
        None => String::from_str("unknown"),
    };
    let request_size = compute_approximate_request_size(head) as u64;
    RequestMetricAttributes { method: head.method.clone(), route, server_address, request_size }
}

/// The labels of a request's measurements once its response has this status.
pub fn metric_labels(attributes: &RequestMetricAttributes, status: u16) -> (r: MetricLabels)
    ensures
        r.method@ == attributes.method@,
        r.route@ == attributes.route@,
        r.status_code@ == decimal(status as nat),
        r.server_address@ == attributes.server_address@,
{
    MetricLabels {
        method: attributes.method.clone(),
        route: attributes.route.clone(),
        status_code: status_code_text(status),
        server_address: attributes.server_address.clone(),
    }
}

} // verus!
