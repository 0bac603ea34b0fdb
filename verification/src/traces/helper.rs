//! The current trace id, under the path of the trace helpers.
pub use crate::trace_id::get_current_otel_trace_id;
