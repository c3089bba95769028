//! Failure taxonomy of the recognition pipeline.
//!
//! Every fallible operation surfaces one of these variants to its caller,
//! each carrying a human-readable message. `Http` additionally carries the
//! numeric status and the raw response body.

use vstd::prelude::*;

verus! {

/// A typed failure of the recognition pipeline.
#[derive(Debug, Clone, PartialEq)]
pub enum PipelineError {
    /// The raster input could not be decoded.
    Decode(String),
    /// The normalized pixel buffer could not be re-encoded.
    Encode(String),
    /// The pipeline is disabled, a credential is missing, or a
    /// configuration field failed validation.
    Config(String),
    /// Transport-level failure (DNS, connect, timeout, TLS).
    Network(String),
    /// A non-success HTTP status, with the status code and the raw body.
    Http(u16, String),
    /// The response body was not well-formed JSON.
    Parse(String),
}

} // verus!
