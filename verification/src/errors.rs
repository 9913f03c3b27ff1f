//! The errors that the library's functions surface.
//!
//! Recoverable anomalies in the advisory text — malformed JSON, misplaced
//! fields, truncated objects — are never errors: they degrade to a
//! best-effort document. What remains are configuration and upstream
//! failures, and metadata rows missing a required column.
use vstd::prelude::*;

verus! {

/// A failure surfaced to the caller.
#[derive(Debug, PartialEq, Eq)]
pub enum AdvisorError {
    /// No API key was provided and none stands in the environment.
    MissingApiKey,
    /// A metadata row lacks a required column; the column's name is carried.
    MissingColumn { name: Vec<u8> },
    /// The non-streaming endpoint answered with no choice at all.
    EmptyResponse,
    /// The non-streaming endpoint's body is not a well-formed response.
    InvalidResponse,
    /// The upstream service answered with a non-success status.
    UpstreamError { status: u16, body: Vec<u8> },
}

} // verus!
