//! Verified core of a home-heating hub controller.
//!
//! The library holds the logic that is worth proving: the wire-format codec
//! for hub command envelopes, the threshold cascade that picks a heating
//! recipe from a temperature reading, the scheduler's job registry, and the
//! validation of schedule requests.  All network and timer plumbing lives
//! outside the library and hands it plain values.

pub mod byteseq;
pub mod codec;
pub mod engine;
pub mod registry;
pub mod retry;
pub mod schedule;
pub mod thresholds;
pub mod weather;

use vstd::prelude::*;

verus! {

/// The error body returned to a caller whose upload or request could not
/// be served, carrying one human-readable message.
pub struct ErrorResponse {
    pub error: String,
}

impl ErrorResponse {
    pub fn new(error: String) -> (r: ErrorResponse)
        ensures
            r.error@ == error@,
    {
        ErrorResponse { error }
    }
}

} // verus!
