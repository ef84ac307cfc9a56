//! The wrapped operation's error type and its classification into failure
//! reasons.

use vstd::prelude::*;

verus! {

/// The structured domain-level error the gateway service returns: an error
/// code and a human-readable message.
#[derive(Clone, Debug, PartialEq, Eq)]
pub struct StarknetError {
    pub code: u64,
    pub message: String,
}

/// The facets of a transport-level failure that classification reads: a
/// response body that could not be decoded, an HTTP status code, or any
/// other transport fault.
#[derive(Clone, Copy, Debug, PartialEq, Eq, Structural)]
pub enum TransportError {
    /// The response body could not be decoded into the expected shape.
    Decode,
    /// The request completed with the given HTTP status code.
    Status(u16),
    /// Any other transport failure (connection, timeout, request building).
    Other,
}

/// The error a wrapped gateway operation can fail with: either a structured
/// error from the service itself, or a transport-level failure.
#[derive(Clone, Debug, PartialEq, Eq)]
pub enum SequencerError {
    StarknetError(StarknetError),
    ReqwestError(TransportError),
}

/// The mutually exclusive reason categories a failure can be attributed to.
/// A failure matching none of them stays unclassified and is only counted in
/// the aggregate failure series.
#[derive(Clone, Copy, Debug, PartialEq, Eq, Structural)]
pub enum FailureReason {
    Starknet,
    Decode,
    RateLimiting,
}

/// The HTTP status code whose transport failures are attributed to rate
/// limiting.
pub const TOO_MANY_REQUESTS: u16 = 429;

/// The reason a failure is attributed to, with the first matching rule
/// winning: a structured service error, then an undecodable response body,
/// then a transport failure with status 429; every other failure is left
/// unclassified.
pub open spec fn spec_reason(e: SequencerError) -> Option<FailureReason> {
    match e {
        SequencerError::StarknetError(_) => Some(FailureReason::Starknet),
        SequencerError::ReqwestError(t) => match t {
            TransportError::Decode => Some(FailureReason::Decode),
            TransportError::Status(code) => if code == TOO_MANY_REQUESTS {
                Some(FailureReason::RateLimiting)
            } else {
                None
            },
            TransportError::Other => None,
        },
    }
}

/// Classifies a failure into its reason category, or none.
pub fn classify(e: &SequencerError) -> (r: Option<FailureReason>)
    ensures
        r == spec_reason(*e),
{
    match e {
        SequencerError::StarknetError(_) => Some(FailureReason::Starknet),
        SequencerError::ReqwestError(TransportError::Decode) => Some(FailureReason::Decode),
        SequencerError::ReqwestError(TransportError::Status(code)) => if *code
            == TOO_MANY_REQUESTS {
            Some(FailureReason::RateLimiting)
        } else {
            None
        },
        SequencerError::ReqwestError(TransportError::Other) => None,
    }
}

} // verus!
