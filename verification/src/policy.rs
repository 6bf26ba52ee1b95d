//! The policy on inserts that the destination rejects: a duplicate key is
//! passed over where the entity tolerates it, and every other failure stands.

use vstd::prelude::*;

verus! {

/// The code by which the server reports an entry whose key is already there.
pub const DUPLICATE_ENTRY: u16 = 1062;

/// An insert that the destination rejected. `code` is the server's error
/// code, where the server gave one.
#[derive(Debug, PartialEq, Eq)]
pub struct InsertFailure {
    pub code: Option<u16>,
    pub message: String,
}

pub struct InsertFailureView {
    pub code: Option<u16>,
    pub message: Seq<char>,
}

impl View for InsertFailure {
    type V = InsertFailureView;

    open spec fn view(&self) -> InsertFailureView {
        InsertFailureView { code: self.code, message: self.message@ }
    }
}

/// What kind of failure an insert met.
#[derive(Clone, Copy, Debug, PartialEq, Eq, Structural)]
pub enum Conflict {
    /// The row's key is already in the table.
    DuplicateKey,
    /// Anything else.
    Other,
}

impl InsertFailureView {
    /// The kind of the failure, by the server's code.
    pub open spec fn conflict(self) -> Conflict {
        if self.code == Some(DUPLICATE_ENTRY) {
            Conflict::DuplicateKey
        } else {
            Conflict::Other
        }
    }
}

impl InsertFailure {
    /// Classifies the failure.
    pub fn conflict(&self) -> (kind: Conflict)
        ensures
            kind == self@.conflict(),
    {
        match self.code {
            Some(code) => if code == DUPLICATE_ENTRY {
                Conflict::DuplicateKey
            } else {
                Conflict::Other
            },
            None => Conflict::Other,
        }
    }
}

/// The outcome of an insert as the contracts see it.
pub open spec fn outcome_view(outcome: Result<(), InsertFailure>) -> Result<
    (),
    InsertFailureView,
> {
    match outcome {
        Ok(_) => Ok(()),
        Err(failure) => Err(failure@),
    }
}

/// What an insert's outcome counts as: a duplicate key counts as success
/// where `tolerant`, everything else as what it is.
pub open spec fn spec_settle(outcome: Result<(), InsertFailureView>, tolerant: bool) -> Result<
    (),
    InsertFailureView,
> {
    match outcome {
        Ok(_) => Ok(()),
        Err(failure) => if tolerant && failure.conflict() == Conflict::DuplicateKey {
            Ok(())
        } else {
            Err(failure)
        },
    }
}

/// Applies the policy to the outcome of one insert.
pub fn settle(outcome: Result<(), InsertFailure>, tolerant: bool) -> (settled: Result<
    (),
    InsertFailure,
>)
    ensures
        outcome_view(settled) == spec_settle(outcome_view(outcome), tolerant),
{
    match outcome {
        Ok(_) => Ok(()),
        Err(failure) => {
            if tolerant {
                match failure.conflict() {
                    Conflict::DuplicateKey => Ok(()),
                    Conflict::Other => Err(failure),
                }
            } else {
                Err(failure)
            }
        },
    }
}

} // verus!
