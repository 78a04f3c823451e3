//! Errors of the process helper.
use vstd::prelude::*;

verus! {

/// Failures of the standalone process helper.
#[derive(Eq, PartialEq, Debug, Clone)]
pub enum LcuHelperError {
    FailedToFindLeagueProcess,
    Other(String),
}

pub open spec fn helper_error_text(e: LcuHelperError) -> Seq<char> {
    match e {
        LcuHelperError::FailedToFindLeagueProcess => "Failed to find LeagueClientUx process"@,
        LcuHelperError::Other(m) => m@,
    }
}

impl LcuHelperError {
    /// A catch-all error carrying `message`.
    pub fn new(message: &str) -> (r: Self)
        ensures
            r matches LcuHelperError::Other(m) && m@ == message@,
    {
        LcuHelperError::Other(String::from_str(message))
    }

    /// The text that describes this error.
    pub fn to_message(&self) -> (r: String)
        ensures
            r@ == helper_error_text(*self),
    {
        match self {
            LcuHelperError::FailedToFindLeagueProcess => String::from_str(
                "Failed to find LeagueClientUx process",
            ),
            LcuHelperError::Other(m) => m.clone(),
        }
    }
}

} // verus!
