//! OpenTelemetry instrumentation helpers for HTTP and gRPC services.
//!
//! The library computes, from the values of a request or a response, what the
//! OpenTelemetry semantic conventions ask a span or a metric to carry: server and
//! client addresses, routes, span names, header attributes, sizes, status
//! outcomes and the current trace id. These computations are specified over
//! mathematical models and proved by Verus; what is recorded on a `tracing`
//! span, and which fields the globally configured propagator writes, are left
//! to those outside crates.
pub mod error;
pub mod fields;
pub mod grpc;
pub mod headers;
pub mod helper;
pub mod host;
pub mod metrics;
pub mod request;
pub mod response;
pub mod span;
pub mod text;
pub mod trace_id;
pub mod traces;

pub use trace_id::get_current_otel_trace_id;
