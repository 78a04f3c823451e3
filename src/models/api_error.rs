//! Errors reported by the companion application's API.
use vstd::prelude::*;

use crate::errors::LcuDriverError;

verus! {

/// An error the companion application's API reported for one request.
#[derive(Eq, PartialEq, Debug, Clone)]
pub enum LcuApiError {
    /// No application screen that could answer the request is open: a transient state.
    NoActiveDelegate,
    UnknownError(String),
}

/// The body of a response with a non-success status.
#[derive(Debug, Clone, Default)]
pub struct ApiError {
    pub error_code: String,
    pub http_status: i64,
    pub message: String,
}

/// The message by which the API reports that no screen can answer.
pub open spec fn no_active_delegate_text() -> Seq<char> {
    "No active delegate"@
}

pub open spec fn api_error_text(e: LcuApiError) -> Seq<char> {
    match e {
        LcuApiError::NoActiveDelegate => "No active delegate was found"@,
        LcuApiError::UnknownError(m) => m@,
    }
}

impl LcuApiError {
    /// The text that describes this error.
    pub fn to_message(&self) -> (r: String)
        ensures
            r@ == api_error_text(*self),
    {
        match self {
            LcuApiError::NoActiveDelegate => String::from_str("No active delegate was found"),
            LcuApiError::UnknownError(m) => m.clone(),
        }
    }
}

impl ApiError {
    /// The text that describes this error: its message.
    pub fn to_message(&self) -> (r: String)
        ensures
            r@ == self.message@,
    {
        self.message.clone()
    }
}

impl From<ApiError> for LcuDriverError {
    /// `NoActiveDelegate` when the message is exactly "No active delegate", and an unknown
    /// error carrying the message otherwise.
    fn from(api_err: ApiError) -> (r: LcuDriverError)
        ensures
            r == maps_api_error(api_err),
    {
        let delegate = String::from_str("No active delegate");
        if api_err.message == delegate {
            LcuDriverError::ApiError(LcuApiError::NoActiveDelegate)
        } else {
            LcuDriverError::ApiError(LcuApiError::UnknownError(api_err.message))
        }
    }
}

/// The driver error that an API error maps to.
pub open spec fn maps_api_error(api_err: ApiError) -> LcuDriverError {
    if api_err.message@ == no_active_delegate_text() {
        LcuDriverError::ApiError(LcuApiError::NoActiveDelegate)
    } else {
        LcuDriverError::ApiError(LcuApiError::UnknownError(api_err.message))
    }
}

impl vstd::std_specs::convert::FromSpecImpl<ApiError> for LcuDriverError {
    open spec fn obeys_from_spec() -> bool {
        true
    }

    open spec fn from_spec(api_err: ApiError) -> LcuDriverError {
        maps_api_error(api_err)
    }
}

/// Error mapping: an API error whose message is exactly "No active delegate" maps to
/// `NoActiveDelegate`; any other maps to an unknown error carrying that very message.
pub proof fn lemma_error_mapping(e: ApiError)
    ensures
        e.message@ == "No active delegate"@ ==> maps_api_error(e) == LcuDriverError::ApiError(
            LcuApiError::NoActiveDelegate,
        ),
        e.message@ != "No active delegate"@ ==> maps_api_error(e) == LcuDriverError::ApiError(
            LcuApiError::UnknownError(e.message),
        ),
{
}

} // verus!
