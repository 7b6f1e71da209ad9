//! Error taxonomy of the pipeline's clients.

use vstd::prelude::*;

verus! {

/// A feed call that did not produce a usable item or ranking: the transport
/// failed or timed out, or the response body was not decodable.
#[derive(Debug, Clone, Copy, PartialEq, Eq, Structural)]
pub enum FeedError {
    NetworkError,
    DecodeError,
}

/// An analysis call that did not produce a judgment: the model service was
/// unreachable (or answered with a failure), or its reply held no parsable,
/// complete judgment — the raw reply is kept for diagnostics.
#[derive(Debug)]
pub enum AnalysisError {
    ServiceUnavailable,
    MalformedJudgment(String),
}

} // verus!
