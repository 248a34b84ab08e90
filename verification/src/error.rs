//! The ways in which an operation of the library can fail.

use vstd::prelude::*;

verus! {

/// Why an operation was refused.
#[derive(Clone, Copy, Debug, PartialEq, Eq, Structural)]
pub enum Error {
    /// No ballot or tally with the given key.
    NotFound,
    /// The caller is not the voter of the ballot.
    Forbidden,
    /// The state or the time does not allow the operation, or there are too
    /// few eligible players.
    Conflict,
    /// The vote is no ranking of players offered on the ballot.
    ValidationError,
    /// The store refused a row, such as one that repeats a unique key.
    StorageError,
    /// A counted ballot holds a vote that is no ranking of its players.
    MalformedBallot,
    /// The data is beyond the sizes that the tally works with.
    TooLarge,
}

impl Error {
    /// A short description of the failure.
    pub fn message(&self) -> (s: &'static str)
        ensures
            s@ == error_message(*self),
    {
        match self {
            Error::NotFound => "not found",
            Error::Forbidden => "you are not allowed to vote on this ballot",
            Error::Conflict => "not possible in this state or at this time",
            Error::ValidationError => "the vote is not a ranking of the offered players",
            Error::StorageError => "the store refused the row",
            Error::MalformedBallot => "a ballot holds a vote that is no ranking of its players",
            Error::TooLarge => "too much data for one tally",
        }
    }
}

/// The description of each failure.
pub open spec fn error_message(e: Error) -> Seq<char> {
    match e {
        Error::NotFound => "not found"@,
        Error::Forbidden => "you are not allowed to vote on this ballot"@,
        Error::Conflict => "not possible in this state or at this time"@,
        Error::ValidationError => "the vote is not a ranking of the offered players"@,
        Error::StorageError => "the store refused the row"@,
        Error::MalformedBallot => "a ballot holds a vote that is no ranking of its players"@,
        Error::TooLarge => "too much data for one tally"@,
    }
}

} // verus!
