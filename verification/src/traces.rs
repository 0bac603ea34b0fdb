//! Trace helpers, under the path that services import them from.
pub mod helper;

pub use crate::trace_id::get_current_otel_trace_id;
