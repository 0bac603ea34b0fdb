//! Spans of the `tracing` crate behind trusted items, and the updates the
//! instrumentation makes to them: attributes from headers and from the user,
//! response status fields, and trace-context injection into headers.
use crate::headers::{
    entry_names, header_attribute_list, header_entries, inject_fields, lemma_propagation_keeps_headers,
    order_fields,
    propagated_into,
};
use crate::response::{otel_status_code, server_error, status_fields};
use crate::text::{decimal, digits_value, lemma_decimal_reads_back};
use crate::text::to_owned_string;
use http::{HeaderMap, HeaderValue};
use std::collections::HashMap;
use opentelemetry::Context;
use tracing::Span;
use tracing_opentelemetry::OpenTelemetrySpanExt;
use vstd::prelude::*;

verus! {

#[verifier::external_type_specification]
#[verifier::external_body]
pub struct ExSpan(Span);

#[verifier::external_type_specification]
#[verifier::external_body]
pub struct ExContext(Context);

/// Calls `tracing::Span::current`; which span is current depends on the
/// thread's state, so nothing is stated of it.
#[verifier::external_body]
pub(crate) fn current_span() -> Span {
    Span::current()
}

/// Calls `OpenTelemetrySpanExt::context`: the OpenTelemetry context of a span,
/// which depends on the subscriber, so nothing is stated of it.
#[verifier::external_body]
pub(crate) fn span_context(span: &Span) -> Context {
    span.context()
}

/// Calls `OpenTelemetrySpanExt::set_attribute` with a string key and value. The
/// effect on the span is not modelled.
#[verifier::external_body]
fn set_span_attribute(span: &Span, key: String, value: String) {
    span.set_attribute(key, value);
}

/// Calls `Span::record` with a string value. The effect on the span is not
/// modelled.
#[verifier::external_body]
fn record_str(span: &Span, field: &str, value: &str) {
    span.record(field, value);
}

/// Calls `Span::record` with a `u16` value. The effect on the span is not
/// modelled.
#[verifier::external_body]
fn record_u16(span: &Span, field: &str, value: u16) {
    span.record(field, value);
}

/// Calls the global text-map propagator's `inject_context` with a
/// `HashMap<String, String>` carrier, whose `Injector::set` lower-cases the key
/// and inserts the pair, and hands the carrier's fields out. Which fields the
/// propagator writes depends on its global configuration at run time, and their
/// order on the map's walk, so nothing is stated of them.
#[verifier::external_body]
fn propagation_fields(context: &Context) -> Vec<(String, String)> {
    let mut carrier: HashMap<String, String> = HashMap::new();
    opentelemetry::global::get_text_map_propagator(|propagator| {
        propagator.inject_context(context, &mut carrier)
    });
    carrier.into_iter().collect()
}

/// Calls `TextMapPropagator::fields` on the global text-map propagator: the
/// names of the fields it writes, in its order. The propagator is configured
/// globally at run time, so nothing is stated of them.
#[verifier::external_body]
fn propagator_field_names() -> Vec<String> {
    opentelemetry::global::get_text_map_propagator(|propagator| {
        propagator.fields().map(|name| name.to_string()).collect()
    })
}

/// Sets every (key, value) pair of the list as an attribute of the span, in
/// order.
pub fn set_span_attributes(span: &Span, attributes: &Vec<(String, String)>) {
    let n = attributes.len();
    let mut i: usize = 0;
    while i < n
        invariant
            n == attributes.len(),
            0 <= i <= n,
        decreases n - i,
    {
        let key = attributes[i].0.clone();
        let value = attributes[i].1.clone();
        set_span_attribute(span, key, value);
        i = i + 1;
    }
}

/// Sets the printable request headers as span attributes named
/// `http.request.header.<name>`: the pairs of `header_attribute_list`, in order.
pub fn update_span_with_request_headers(headers: &HeaderMap<HeaderValue>, span: &Span) {
    set_span_attributes(span, &header_attribute_list(headers, "http.request.header."));
}

/// Sets the printable response headers as span attributes named
/// `http.response.header.<name>`: the pairs of `header_attribute_list`, in order.
pub fn update_span_with_response_headers(headers: &HeaderMap<HeaderValue>, span: &Span) {
    set_span_attributes(span, &header_attribute_list(headers, "http.response.header."));
}

/// The custom attributes as text pairs.
pub open spec fn custom_attributes(attributes: Seq<(&'static str, &'static str)>) -> Seq<(Seq<char>, Seq<char>)> {
    attributes.map_values(|a: (&'static str, &'static str)| (a.0@, a.1@))
}

/// The custom attributes as owned (key, value) pairs, in order.
pub fn custom_attribute_list(attributes: &Vec<(&'static str, &'static str)>) -> (r: Vec<(String, String)>)
    ensures
        r.deep_view() == custom_attributes(attributes@),
{
    let n = attributes.len();
    let mut out: Vec<(String, String)> = Vec::new();
    let mut i: usize = 0;
    while i < n
        invariant
            n == attributes.len(),
            0 <= i <= n,
            out.deep_view() == custom_attributes(attributes@.take(i as int)),
        decreases n - i,
    {
        let (key, value) = attributes[i];
        let ghost prev = out.deep_view();
        out.push((to_owned_string(key), to_owned_string(value)));
        proof {
            assert(attributes@.take(i + 1) =~= attributes@.take(i as int).push(attributes@[i as int]));
            assert(out.deep_view() =~= prev.push((key@, value@)));
            assert(custom_attributes(attributes@.take(i + 1)) =~= custom_attributes(attributes@.take(i as int)).push(
                (key@, value@),
            ));
        }
        i = i + 1;
    }
    assert(attributes@.take(n as int) =~= attributes@);
    out
}

/// The attributes of two lists set one after the other are those of the joined
/// list, and an empty list sets none.
pub proof fn lemma_custom_attributes_concat(
    a: Seq<(&'static str, &'static str)>,
    b: Seq<(&'static str, &'static str)>,
)
    ensures
        custom_attributes(a + b) == custom_attributes(a) + custom_attributes(b),
        custom_attributes(Seq::empty()) == Seq::<(Seq<char>, Seq<char>)>::empty(),
{
    assert(custom_attributes(a + b) =~= custom_attributes(a) + custom_attributes(b));
    assert(custom_attributes(Seq::empty()) =~= Seq::<(Seq<char>, Seq<char>)>::empty());
}

/// Sets custom (key, value) attributes on the span, in order: the pairs of
/// `custom_attribute_list`.
pub fn update_span_with_custom_attributes(attributes: Vec<(&'static str, &'static str)>, span: &Span) {
    set_span_attributes(span, &custom_attribute_list(&attributes));
}

/// Injects the current span's trace context into the headers: the fields that
/// the globally configured propagator writes are set in the headers one after
/// the other, in the order of the propagator's field names; a field meets a
/// full table only where `HeaderMap::insert` would panic, and is then left out.
/// Every name the headers held stays.
pub fn inject_trace_id(headers: &mut HeaderMap<HeaderValue>)
    ensures
        propagated_into(header_entries(*old(headers)), header_entries(*final(headers))),
        entry_names(header_entries(*old(headers))).subset_of(entry_names(header_entries(*final(headers)))),
{
    let context = span_context(&current_span());
    let fields = propagation_fields(&context);
    let ordered = order_fields(&fields, &propagator_field_names());
    inject_fields(headers, &ordered);
    proof {
        lemma_propagation_keeps_headers(
            header_entries(*old(headers)),
            ordered.deep_view(),
            header_entries(*headers),
            seq![],
        );
    }
}

/// Records a response on the span: its status code, the given OpenTelemetry
/// status and its headers; then injects the trace context into the headers.
fn record_grpc_response(status: u16, otel_status: &str, headers: &mut HeaderMap<HeaderValue>, span: &Span)
    ensures
        propagated_into(header_entries(*old(headers)), header_entries(*final(headers))),
        entry_names(header_entries(*old(headers))).subset_of(entry_names(header_entries(*final(headers)))),
{
    record_u16(span, "http.response.status_code", status);
    record_str(span, "otel.status_code", otel_status);
    update_span_with_response_headers(headers, span);
    inject_trace_id(headers);
}

/// Records a successful response on the span: its status code, the `OK`
/// OpenTelemetry status and its headers; then injects the trace context into
/// the headers.
pub fn update_span_on_success(status: u16, headers: &mut HeaderMap<HeaderValue>, span: &Span)
    ensures
        propagated_into(header_entries(*old(headers)), header_entries(*final(headers))),
        entry_names(header_entries(*old(headers))).subset_of(entry_names(header_entries(*final(headers)))),
{
    record_grpc_response(status, "OK", headers, span);
}

/// Records a failed response on the span: its status code, the `ERROR`
/// OpenTelemetry status and its headers; then injects the trace context into
/// the headers.
pub fn update_span_on_error(status: u16, headers: &mut HeaderMap<HeaderValue>, span: &Span)
    ensures
        propagated_into(header_entries(*old(headers)), header_entries(*final(headers))),
        entry_names(header_entries(*old(headers))).subset_of(entry_names(header_entries(*final(headers)))),
{
    record_grpc_response(status, "ERROR", headers, span);
}

/// Records a response on the span the way a gRPC server does: a server error
/// (5xx) as a failure (`ERROR`), any other status as a success (`OK`).
pub fn update_span_with_status(status: u16, headers: &mut HeaderMap<HeaderValue>, span: &Span)
    ensures
        propagated_into(header_entries(*old(headers)), header_entries(*final(headers))),
        entry_names(header_entries(*old(headers))).subset_of(entry_names(header_entries(*final(headers)))),
{
    record_grpc_response(status, otel_status_code(status), headers, span);
}

/// What an HTTP span records of a response status: the status code as text,
/// then, when error types are recorded and the status is a server error, the
/// same text as the `error.type`.
pub open spec fn http_response_records(status: u16, record_error_type: bool) -> Seq<(Seq<char>, Seq<char>)> {
    seq![("http.response.status_code"@, decimal(status as nat))] + if record_error_type && server_error(status) {
        seq![("error.type"@, decimal(status as nat))]
    } else {
        seq![]
    }
}

/// The records of a response status: the status code's decimal text first;
/// then the same text as the `error.type` exactly when error types are recorded
/// and the status is a server error (500 to 599), and nothing else.
pub proof fn lemma_error_type_only_for_server_errors(status: u16, record_error_type: bool)
    ensures
        http_response_records(status, record_error_type)[0] == ("http.response.status_code"@, decimal(
            status as nat,
        )),
        digits_value(http_response_records(status, record_error_type)[0].1) == status,
        !(record_error_type && 500 <= status <= 599) ==> http_response_records(status, record_error_type).len()
            == 1,
        (record_error_type && 500 <= status <= 599) ==> http_response_records(status, record_error_type).len()
            == 2 && http_response_records(status, record_error_type)[1] == ("error.type"@, http_response_records(
            status,
            record_error_type,
        )[0].1),
{
    lemma_decimal_reads_back(status as nat);
}

/// The (field, value) records an HTTP span takes of a response status.
pub fn http_response_record_list(status: u16, record_error_type: bool) -> (r: Vec<(&'static str, String)>)
    ensures
        r.deep_view() == http_response_records(status, record_error_type),
{
    let fields = status_fields(status);
    let mut out: Vec<(&'static str, String)> = Vec::new();
    out.push(("http.response.status_code", fields.status_code));
    if record_error_type {
        match fields.error_type {
            Some(error_type) => out.push(("error.type", error_type)),
            None => {},
        }
    }
    proof {
        reveal_strlit("http.response.status_code");
        reveal_strlit("error.type");
    }
    assert(out.deep_view() =~= http_response_records(status, record_error_type));
    out
}

/// Records every (field, value) pair of the list on the span, in order.
fn record_all(span: &Span, records: &Vec<(&'static str, String)>) {
    let n = records.len();
    let mut i: usize = 0;
    while i < n
        invariant
            n == records.len(),
            0 <= i <= n,
        decreases n - i,
    {
        record_str(span, records[i].0, records[i].1.as_str());
        i = i + 1;
    }
}

/// Records a response on an HTTP span: its headers, then the trace context
/// injected into them, then the records of `http_response_record_list`: the
/// status code as text and, with `record_error_type`, a server error (5xx) as
/// the `error.type`.
pub fn record_http_response(
    status: u16,
    headers: &mut HeaderMap<HeaderValue>,
    span: &Span,
    record_error_type: bool,
)
    ensures
        propagated_into(header_entries(*old(headers)), header_entries(*final(headers))),
        entry_names(header_entries(*old(headers))).subset_of(entry_names(header_entries(*final(headers)))),
{
    update_span_with_response_headers(headers, span);
    inject_trace_id(headers);
    record_all(span, &http_response_record_list(status, record_error_type));
}

} // verus!
