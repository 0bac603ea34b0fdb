//! What a response's status code means for a span and for metrics.
use crate::text::{decimal, u16_to_string};
use vstd::prelude::*;

verus! {

/// A server error: a status in the 5xx class (`StatusCode::is_server_error`).
pub open spec fn server_error(status: u16) -> bool {
    500 <= status < 600
}

/// The OpenTelemetry span status that a response status gives a server span.
pub open spec fn otel_status_of(status: u16) -> Seq<char> {
    if server_error(status) {
        "ERROR"@
    } else {
        "OK"@
    }
}

/// Whether the status is a server error (5xx).
pub fn is_server_error(status: u16) -> (r: bool)
    ensures
        r == server_error(status),
{
    500 <= status && status < 600
}

/// The status code as text: its decimal digits (`StatusCode::as_str`, for the
/// codes from 100 to 999 that a `StatusCode` holds).
pub fn status_code_text(status: u16) -> (r: String)
    ensures
        r@ == decimal(status as nat),
{
    u16_to_string(status)
}

/// The OpenTelemetry status code for a response status: `ERROR` for a server
/// error, `OK` otherwise.
pub fn otel_status_code(status: u16) -> (r: &'static str)
    ensures
        r@ == otel_status_of(status),
{
    if is_server_error(status) {
        "ERROR"
    } else {
        "OK"
    }
}

/// What an HTTP server span records of a response status: the code as text,
/// and the same text as the error type when the status is a server error.
pub struct StatusFields {
    pub status_code: String,
    pub error_type: Option<String>,
}

/// The status fields of an HTTP server span.
pub fn status_fields(status: u16) -> (r: StatusFields)
    ensures
        r.status_code@ == decimal(status as nat),
        r.error_type.deep_view() == if server_error(status) {
            Some(decimal(status as nat))
        } else {
            None
        },
{
    let status_code = status_code_text(status);
    let error_type = if is_server_error(status) {
        Some(status_code_text(status))
    } else {
        None
    };
    StatusFields { status_code, error_type }
}

/// A span's OpenTelemetry status is `ERROR` exactly for the 5xx statuses.
pub proof fn lemma_error_exactly_for_server_errors(status: u16)
    ensures
        otel_status_of(status) == "ERROR"@ <==> 500 <= status <= 599,
{
    reveal_strlit("ERROR");
    reveal_strlit("OK");
    if !server_error(status) {
        assert("OK"@.len() != "ERROR"@.len());
    }
}

} // verus!
