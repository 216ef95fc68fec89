//! Errors the crate can return for various reasons.
//!
//! Most commonly involved with HTTP API access issues.

use vstd::prelude::*;
use vstd::string::*;

use crate::text::{spec_dec_digits, u64_to_dec};

verus! {

/// Errors that can occur processing data in this crate.
///
/// The set is closed so that callers can branch exhaustively: a failure is
/// either a bad status code, a transport-level failure, a body that does not
/// decode, or a discovery response with an exhausted mirror list.
#[derive(Clone, Copy, Debug, PartialEq, Eq, Structural)]
pub enum VatsimUtilError {
    /// An HTTP call to an external resource received a response whose
    /// status code lies outside the success range.
    InvalidStatusCode(u16),
    /// The underlying HTTP call itself failed (connection, DNS, TLS,
    /// timeout); no status code exists to report.
    ReqwestError(),
    /// A success response's body could not be parsed as JSON of the
    /// expected shape.
    FailedJsonParse(),
    /// The status page offered no live-data URL to choose from.
    NoV3Url(),
    /// The status page offered no transceivers URL to choose from.
    NoTransceiversUrl(),
}

impl VatsimUtilError {
    /// A human-readable description of the failure.
    pub fn message(&self) -> (r: String)
        ensures
            match self {
                VatsimUtilError::InvalidStatusCode(c) => r@ == "Invalid HTTP status code received: "@
                    + spec_dec_digits(*c as nat),
                VatsimUtilError::ReqwestError() => r@ == "HTTP transport failure"@,
                VatsimUtilError::FailedJsonParse() => r@
                    == "Failed to serialize/deserialize JSON"@,
                VatsimUtilError::NoV3Url() => r@
                    == "Could not retrieve a V3 URL from the status page"@,
                VatsimUtilError::NoTransceiversUrl() => r@
                    == "Could not retrieve a transceivers URL from the status page"@,
            },
    {
        match self {
            VatsimUtilError::InvalidStatusCode(c) => {
                let mut r = String::from_str("Invalid HTTP status code received: ");
                let digits = u64_to_dec(*c as u64);
                r.append(digits.as_str());
                r
            },
            VatsimUtilError::ReqwestError() => String::from_str("HTTP transport failure"),
            VatsimUtilError::FailedJsonParse() => String::from_str(
                "Failed to serialize/deserialize JSON",
            ),
            VatsimUtilError::NoV3Url() => String::from_str(
                "Could not retrieve a V3 URL from the status page",
            ),
            VatsimUtilError::NoTransceiversUrl() => String::from_str(
                "Could not retrieve a transceivers URL from the status page",
            ),
        }
    }
}

} // verus!
