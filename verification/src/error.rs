//! The ways in which an operation of the ledger is turned down.

use vstd::prelude::*;

verus! {

/// Why an operation was refused. Every refusal leaves the ledger as it was.
#[derive(Clone, Copy, Debug, PartialEq, Eq, Structural)]
pub enum Error {
    /// The ledger has no configuration yet.
    NotInitialized,
    /// The ledger was configured before.
    AlreadyInitialized,
    /// The party that has to pay holds less than the amount due.
    InsufficientBalance,
    /// No loan was ever issued under the given id.
    LoanNotFound,
    /// The loan was settled before.
    LoanAlreadyPaid,
    /// The loan is on record for another borrower.
    Unauthorized,
}

impl Error {
    /// The number under which hosts report this refusal.
    pub open spec fn spec_code(self) -> u32 {
        match self {
            Error::NotInitialized => 1,
            Error::AlreadyInitialized => 2,
            Error::InsufficientBalance => 3,
            Error::LoanNotFound => 4,
            Error::LoanAlreadyPaid => 5,
            Error::Unauthorized => 6,
        }
    }

    /// The number under which hosts report this refusal.
    #[verifier::when_used_as_spec(spec_code)]
    pub fn code(self) -> (n: u32)
        ensures
            n == self.spec_code(),
    {
        match self {
            Error::NotInitialized => 1,
            Error::AlreadyInitialized => 2,
            Error::InsufficientBalance => 3,
            Error::LoanNotFound => 4,
            Error::LoanAlreadyPaid => 5,
            Error::Unauthorized => 6,
        }
    }
}

} // verus!
