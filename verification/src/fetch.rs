//! The request/validate/decode sequence shared by every network operation.
//!
//! The transport itself lives outside this crate; callers report what the
//! round trip produced as a [`TransportOutcome`], and the functions here
//! classify it: a transport failure, a non-success status code, or a body
//! that may be handed to a decoder.

use vstd::prelude::*;

use crate::errors::VatsimUtilError;

verus! {

/// What one HTTP round trip produced, as seen by the caller that performed
/// it: either the call itself failed, or a response arrived bearing a
/// status code and a body.
pub enum TransportOutcome {
    /// The call never produced a response (connection refused, timeout,
    /// TLS or DNS failure).
    Failure,
    /// A response arrived with this status code and body.
    Response { status: u16, body: Vec<u8> },
}

/// A status code counts as success exactly when it lies in the 2xx range.
pub open spec fn is_success_code(status: u16) -> bool {
    200 <= status < 300
}

/// Classify one transport outcome: a failed call becomes `ReqwestError`,
/// a non-2xx response becomes `InvalidStatusCode` carrying the exact code,
/// and a 2xx response yields its body, ready for decoding.
pub fn classify_response(outcome: TransportOutcome) -> (r: Result<Vec<u8>, VatsimUtilError>)
    ensures
        match outcome {
            TransportOutcome::Failure => r == Err::<Vec<u8>, VatsimUtilError>(
                VatsimUtilError::ReqwestError(),
            ),
            TransportOutcome::Response { status, body } => if is_success_code(status) {
                r == Ok::<Vec<u8>, VatsimUtilError>(body)
            } else {
                r == Err::<Vec<u8>, VatsimUtilError>(VatsimUtilError::InvalidStatusCode(status))
            },
        },
{
    match outcome {
        TransportOutcome::Failure => Err(VatsimUtilError::ReqwestError()),
        TransportOutcome::Response { status, body } => {
            if status >= 200 && status < 300 {
                Ok(body)
            } else {
                Err(VatsimUtilError::InvalidStatusCode(status))
            }
        },
    }
}

/// Finish the protocol after the caller has attempted to decode a success
/// body: a decoded value passes through unchanged, and a decoder failure
/// becomes `FailedJsonParse`.
pub fn finish_decode<T>(decoded: Option<T>) -> (r: Result<T, VatsimUtilError>)
    ensures
        match decoded {
            Some(v) => r == Ok::<T, VatsimUtilError>(v),
            None => r == Err::<T, VatsimUtilError>(VatsimUtilError::FailedJsonParse()),
        },
{
    match decoded {
        Some(v) => Ok(v),
        None => Err(VatsimUtilError::FailedJsonParse()),
    }
}

} // verus!
