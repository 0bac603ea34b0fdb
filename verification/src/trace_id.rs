//! The trace id of the current span, as clients are told it to trace their
//! requests further.
use crate::span::{current_span, span_context};
use opentelemetry::trace::{SpanContext, TraceContextExt, TraceId};
use opentelemetry::Context;
use vstd::arithmetic::div_mod::lemma_breakdown;
use vstd::prelude::*;

verus! {

#[verifier::external_type_specification]
#[verifier::external_body]
pub struct ExSpanContext(SpanContext);

/// The lower-case hexadecimal digit of a value below sixteen.
pub open spec fn hex_digit(d: nat) -> char {
    if d < 10 {
        ((d + 48) as u32) as char
    } else {
        ((d + 87) as u32) as char
    }
}

/// The `width` lowest hexadecimal digits of `n`, most significant first, in
/// lower case and padded with zeros (`format!("{:0width$x}", n)` when `n` has
/// at most `width` digits).
pub open spec fn lower_hex(n: nat, width: nat) -> Seq<char>
    decreases width,
{
    if width == 0 {
        seq![]
    } else {
        lower_hex(n / 16, (width - 1) as nat).push(hex_digit(n % 16))
    }
}

/// Whether a character is a lower-case hexadecimal digit.
pub open spec fn is_lower_hex_digit(c: char) -> bool {
    let v = c as u32;
    (48 <= v <= 57) || (97 <= v <= 102)
}

/// The value of a lower-case hexadecimal digit.
pub open spec fn hex_digit_value(c: char) -> nat {
    let v = c as u32;
    if 48 <= v <= 57 {
        (v - 48) as nat
    } else {
        (v - 87) as nat
    }
}

/// The value of a string of lower-case hexadecimal digits.
pub open spec fn hex_value(s: Seq<char>) -> nat
    decreases s.len(),
{
    if s.len() == 0 {
        0
    } else {
        hex_value(s.drop_last()) * 16 + hex_digit_value(s.last())
    }
}

/// Sixteen to the power `w`.
pub open spec fn pow16(w: nat) -> nat
    decreases w,
{
    if w == 0 {
        1
    } else {
        16 * pow16((w - 1) as nat)
    }
}

/// The text of a trace id: thirty-two lower-case hexadecimal digits whose value
/// is not zero.
pub open spec fn is_trace_id_text(s: Seq<char>) -> bool {
    &&& s.len() == 32
    &&& forall|i: int| 0 <= i < s.len() ==> is_lower_hex_digit(#[trigger] s[i])
    &&& hex_value(s) != 0
}

/// What the current trace id is reported as, given the ids of the current span
/// context: the trace id in hexadecimal when both ids are valid (non-zero).
pub open spec fn reported_trace_id(trace_id: u128, span_id: u64) -> Option<Seq<char>> {
    if trace_id != 0 && span_id != 0 {
        Some(lower_hex(trace_id as nat, 32))
    } else {
        None
    }
}

proof fn lemma_pow16_positive(w: nat)
    ensures
        pow16(w) > 0,
    decreases w,
{
    if w > 0 {
        lemma_pow16_positive((w - 1) as nat);
    }
}

/// The hexadecimal text of `n`: `width` lower-case digits whose value is `n`
/// modulo sixteen to the `width`.
pub proof fn lemma_lower_hex(n: nat, width: nat)
    ensures
        lower_hex(n, width).len() == width,
        forall|i: int| 0 <= i < width ==> is_lower_hex_digit(#[trigger] lower_hex(n, width)[i]),
        hex_value(lower_hex(n, width)) == n % pow16(width),
    decreases width,
{
    if width > 0 {
        let w1 = (width - 1) as nat;
        lemma_lower_hex(n / 16, w1);
        let s = lower_hex(n, width);
        assert(s.drop_last() == lower_hex(n / 16, w1));
        lemma_pow16_positive(w1);
        lemma_breakdown(n as int, 16, pow16(w1) as int);
        assert(hex_digit_value(hex_digit(n % 16)) == n % 16);
        assert(is_lower_hex_digit(hex_digit(n % 16)));
    }
}

/// Reading a reported trace id back: its thirty-two digits give the trace id
/// again, and they are not all zero when the id is not.
pub proof fn lemma_trace_id_text_roundtrip(trace_id: u128)
    ensures
        lower_hex(trace_id as nat, 32).len() == 32,
        hex_value(lower_hex(trace_id as nat, 32)) == trace_id,
        trace_id != 0 ==> is_trace_id_text(lower_hex(trace_id as nat, 32)),
{
    lemma_lower_hex(trace_id as nat, 32);
    reveal_with_fuel(pow16, 33);
    assert(pow16(32) == 0x1_0000_0000_0000_0000_0000_0000_0000_0000nat);
}

/// A trace id is reported exactly for a valid span context (trace id and span
/// id both non-zero), as thirty-two lower-case hexadecimal digits whose value is
/// the whole 128-bit trace id.
pub proof fn lemma_reported_trace_id_is_the_id(trace_id: u128, span_id: u64)
    ensures
        reported_trace_id(trace_id, span_id) is Some <==> (trace_id != 0 && span_id != 0),
        reported_trace_id(trace_id, span_id) matches Some(s) ==> {
            &&& s.len() == 32
            &&& hex_value(s) == trace_id
            &&& is_trace_id_text(s)
        },
{
    lemma_trace_id_text_roundtrip(trace_id);
}

/// Calls `TraceId`'s `Display`, which writes the id as thirty-two lower-case
/// hexadecimal digits (`{:032x}`).
#[verifier::external_body]
fn format_trace_id(trace_id: u128) -> (r: String)
    ensures
        r@ == lower_hex(trace_id as nat, 32),
{
    TraceId::from(trace_id).to_string()
}

/// Calls `TraceContextExt::span` and `SpanRef::span_context` on a context and
/// clones the span context; it depends on the context, so nothing is stated.
#[verifier::external_body]
fn context_span_context(context: &Context) -> SpanContext {
    context.span().span_context().clone()
}

/// Calls `SpanContext::trace_id` and reads the id as the integer that its
/// big-endian bytes hold.
#[verifier::external_body]
fn span_context_trace_id(span_context: &SpanContext) -> u128 {
    u128::from_be_bytes(span_context.trace_id().to_bytes())
}

/// Calls `SpanContext::span_id` and reads the id as the integer that its
/// big-endian bytes hold.
#[verifier::external_body]
fn span_context_span_id(span_context: &SpanContext) -> u64 {
    u64::from_be_bytes(span_context.span_id().to_bytes())
}

/// The trace id to report for a span context with these ids: a span context is
/// valid when both its trace id and its span id are non-zero, and only a valid
/// one has a trace id to report.
pub fn trace_id_from_ids(trace_id: u128, span_id: u64) -> (r: Option<String>)
    ensures
        r.deep_view() == reported_trace_id(trace_id, span_id),
{
    if trace_id != 0 && span_id != 0 {
        Some(format_trace_id(trace_id))
    } else {
        None
    }
}

/// Extracts the current OpenTelemetry trace id. It can be reported to clients
/// so that the problems of a given request can be traced further.
pub fn get_current_otel_trace_id() -> (r: Option<String>)
    ensures
        exists|trace_id: u128, span_id: u64| r.deep_view() == #[trigger] reported_trace_id(trace_id, span_id),
        r matches Some(s) ==> is_trace_id_text(s@),
{
    let context = span_context(&current_span());
    let span_context = context_span_context(&context);
    let trace_id = span_context_trace_id(&span_context);
    let span_id = span_context_span_id(&span_context);
    proof {
        lemma_trace_id_text_roundtrip(trace_id);
    }
    trace_id_from_ids(trace_id, span_id)
}

} // verus!
