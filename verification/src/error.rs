//! The error that an application attaches to a response for its span.
use vstd::prelude::*;

verus! {

/// This error is to be inserted into the response extensions where an
/// application handles its errors, so that the span can read the error's type
/// and message.
#[derive(Debug, Clone)]
pub struct OtelError {
    pub types: String,
    pub messages: String,
}

} // verus!
