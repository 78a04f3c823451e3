//! The error taxonomy of the driver.
use vstd::prelude::*;

use crate::models::api_error::{api_error_text, LcuApiError};

verus! {

/// Every way a driver operation can fail.
///
/// `FailedToFindLeagueProcess` is the missing companion process, `FailedToReadLockfileToken`
/// a malformed handshake file, `FailedToReadCertificate` a trust setup failure and
/// `FailedToFindLutrisPrefix` a failed compatibility-layer remap. Lower-level failures
/// (an unreadable file, a client that could not be built) arrive as `Other` with their text.
#[derive(Eq, PartialEq, Debug, Clone)]
pub enum LcuDriverError {
    FailedToFindLeagueProcess,
    FailedToReadLockfileToken,
    FailedToSendRequest(String),
    FailedToReadResponse(String),
    FailedToReadCertificate,
    FailedToFindLutrisPrefix,
    ApiError(LcuApiError),
    Other(String),
}

/// The text that describes an error to a person.
pub open spec fn driver_error_text(e: LcuDriverError) -> Seq<char> {
    match e {
        LcuDriverError::FailedToFindLeagueProcess => "Failed to find LeagueClientUx process"@,
        LcuDriverError::FailedToReadLockfileToken => "Failed to read lockfile token"@,
        LcuDriverError::FailedToSendRequest(m) => "Failed to send request to League API - "@ + m@,
        LcuDriverError::FailedToReadResponse(m) => "Failed to read response text from League API - "@
            + m@,
        LcuDriverError::FailedToReadCertificate => "Failed to read riot certificate file"@,
        LcuDriverError::FailedToFindLutrisPrefix => "Failed to find lutris prefix"@,
        LcuDriverError::ApiError(a) => api_error_text(a),
        LcuDriverError::Other(m) => m@,
    }
}

impl LcuDriverError {
    /// A catch-all error carrying `message`.
    pub fn new(message: &str) -> (r: Self)
        ensures
            r matches LcuDriverError::Other(m) && m@ == message@,
    {
        LcuDriverError::Other(String::from_str(message))
    }

    /// The text that describes this error.
    pub fn to_message(&self) -> (r: String)
        ensures
            r@ == driver_error_text(*self),
    {
        match self {
            LcuDriverError::FailedToFindLeagueProcess => String::from_str(
                "Failed to find LeagueClientUx process",
            ),
            LcuDriverError::FailedToReadLockfileToken => String::from_str(
                "Failed to read lockfile token",
            ),
            LcuDriverError::FailedToSendRequest(m) => String::from_str(
                "Failed to send request to League API - ",
            ).concat(m.as_str()),
            LcuDriverError::FailedToReadResponse(m) => String::from_str(
                "Failed to read response text from League API - ",
            ).concat(m.as_str()),
            LcuDriverError::FailedToReadCertificate => String::from_str(
                "Failed to read riot certificate file",
            ),
            LcuDriverError::FailedToFindLutrisPrefix => String::from_str(
                "Failed to find lutris prefix",
            ),
            LcuDriverError::ApiError(a) => a.to_message(),
            LcuDriverError::Other(m) => m.clone(),
        }
    }
}

} // verus!
