use vstd::prelude::*;

verus! {

/// Errors that the peer network's operations report.
#[derive(Debug, Clone, Copy, PartialEq, Eq, Structural)]
pub enum CustomError {
    InvalidCommand,
    FailedConverting,
    FailedToChangeHandler,
    NoUserWithThisId,
}

/// The text shown for each error.
pub open spec fn error_text(e: CustomError) -> Seq<char> {
    match e {
        CustomError::InvalidCommand => "Invalid Command, kys"@,
        CustomError::FailedConverting => "FailedConverting, loh"@,
        CustomError::FailedToChangeHandler => "The server's handler function was already initialized"@,
        CustomError::NoUserWithThisId => "WTF??"@,
    }
}

impl CustomError {
    /// The human-readable text of the error.
    pub fn message(&self) -> (res: String)
        ensures
            res@ == error_text(*self),
    {
        match self {
            CustomError::InvalidCommand => "Invalid Command, kys".to_owned(),
            CustomError::FailedConverting => "FailedConverting, loh".to_owned(),
            CustomError::FailedToChangeHandler => "The server's handler function was already initialized".to_owned(),
            CustomError::NoUserWithThisId => "WTF??".to_owned(),
        }
    }
}

} // verus!
