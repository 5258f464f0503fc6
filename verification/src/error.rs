//! The kinds of failure that the data-access layer reports.

use vstd::prelude::*;

verus! {

/// Why an operation of the repository failed.
#[derive(Clone, Copy, Debug, PartialEq, Eq, Structural)]
pub enum RepoError {
    /// The input failed a validation that runs before the store is touched.
    InvalidInput,
    /// A lookup, an update or a delete named a primary key that no row has.
    NotFound,
    /// The store refused a row: its primary key is taken, or a row that it
    /// refers to does not exist.
    Conflict,
    /// No connection to the store could be had, or the driver failed.
    StoreUnavailable,
    /// A row was read but does not convert into its domain shape.
    TransformError,
}

impl RepoError {
    /// The text that `describe` gives for this kind of failure.
    pub open spec fn description(self) -> Seq<char> {
        match self {
            RepoError::InvalidInput => "invalid input"@,
            RepoError::NotFound => "not found"@,
            RepoError::Conflict => "conflict"@,
            RepoError::StoreUnavailable => "store unavailable"@,
            RepoError::TransformError => "stored row cannot be transformed"@,
        }
    }

    /// A short text for this kind of failure.
    pub fn describe(&self) -> (text: &'static str)
        ensures
            text@ == self.description(),
    {
        match self {
            RepoError::InvalidInput => "invalid input",
            RepoError::NotFound => "not found",
            RepoError::Conflict => "conflict",
            RepoError::StoreUnavailable => "store unavailable",
            RepoError::TransformError => "stored row cannot be transformed",
        }
    }
}

} // verus!
