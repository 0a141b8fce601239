//! The records that the ledger keeps: its configuration, one record per loan
//! and one record of statistics per identity.

use vstd::prelude::*;
use crate::identity::Identity;

verus! {

/// The amount of every loan, in base units of the credit asset: one asset
/// unit of ten million base units.
pub const CREDIT_UNIT: i128 = 10_000_000;

/// What a [`Config`] stands for in contracts.
pub struct ConfigView {
    pub treasury: Seq<u8>,
    pub native_token: Seq<u8>,
}

/// The configuration of a ledger: written once, never changed.
#[derive(Debug)]
pub struct Config {
    /// The pool that funds borrowers and receives what lenders and
    /// repaying borrowers pay.
    pub treasury: Identity,
    /// The token in which all credit is counted.
    pub native_token: Identity,
}

impl View for Config {
    type V = ConfigView;

    open spec fn view(&self) -> ConfigView {
        ConfigView { treasury: self.treasury@, native_token: self.native_token@ }
    }
}

impl Clone for Config {
    fn clone(&self) -> (copy: Config)
        ensures
            copy@ == self@,
    {
        Config { treasury: self.treasury.clone(), native_token: self.native_token.clone() }
    }
}

/// What a [`LoanRequest`] stands for in contracts.
pub struct LoanView {
    pub borrower: Seq<u8>,
    pub amount: int,
    pub is_active: bool,
    pub timestamp: u64,
}

impl LoanView {
    /// The record of a loan of `amount` to `borrower`, issued at `now` and
    /// not yet settled.
    pub open spec fn open(borrower: Seq<u8>, amount: int, now: u64) -> LoanView {
        LoanView { borrower, amount, is_active: true, timestamp: now }
    }

    /// The same loan once it is settled.
    pub open spec fn settled(self) -> LoanView {
        LoanView { is_active: false, ..self }
    }
}

/// One loan. It is active from the moment it is issued until it is settled,
/// and never becomes active again.
#[derive(Debug)]
pub struct LoanRequest {
    /// The party on whose record the loan stands.
    pub borrower: Identity,
    /// The amount lent, in base units.
    pub amount: i128,
    /// Whether the loan is still to be settled.
    pub is_active: bool,
    /// The host's time when the loan was issued.
    pub timestamp: u64,
}

impl View for LoanRequest {
    type V = LoanView;

    open spec fn view(&self) -> LoanView {
        LoanView {
            borrower: self.borrower@,
            amount: self.amount as int,
            is_active: self.is_active,
            timestamp: self.timestamp,
        }
    }
}

impl LoanRequest {
    /// A new, active loan of `amount` to `borrower`, issued at `now`.
    pub fn open(borrower: Identity, amount: i128, now: u64) -> (loan: LoanRequest)
        ensures
            loan@ == LoanView::open(borrower@, amount as int, now),
    {
        LoanRequest { borrower, amount, is_active: true, timestamp: now }
    }

    /// This loan as it is on record once it is settled.
    pub fn settled(&self) -> (loan: LoanRequest)
        ensures
            loan@ == self@.settled(),
    {
        LoanRequest {
            borrower: self.borrower.clone(),
            amount: self.amount,
            is_active: false,
            timestamp: self.timestamp,
        }
    }
}

impl Clone for LoanRequest {
    fn clone(&self) -> (copy: LoanRequest)
        ensures
            copy@ == self@,
    {
        LoanRequest {
            borrower: self.borrower.clone(),
            amount: self.amount,
            is_active: self.is_active,
            timestamp: self.timestamp,
        }
    }
}

impl PartialEq for LoanRequest {
    fn eq(&self, other: &LoanRequest) -> (same: bool) {
        self.borrower.same_as(&other.borrower) && self.amount == other.amount
            && self.is_active == other.is_active && self.timestamp == other.timestamp
    }
}

impl Eq for LoanRequest {}

impl vstd::std_specs::cmp::PartialEqSpecImpl for LoanRequest {
    open spec fn obeys_eq_spec() -> bool {
        true
    }

    open spec fn eq_spec(&self, other: &LoanRequest) -> bool {
        self@ == other@
    }
}

/// What a [`UserStats`] stands for in contracts: the same figures without a
/// machine limit.
pub struct StatsView {
    pub total_lent: int,
    pub total_borrowed: int,
    pub active_loans: int,
}

impl StatsView {
    /// The statistics of an identity without history.
    pub open spec fn zero() -> StatsView {
        StatsView { total_lent: 0, total_borrowed: 0, active_loans: 0 }
    }

    /// The statistics after the identity paid `amount` into the pool and
    /// became the borrower of record of one more loan.
    pub open spec fn after_lending(self, amount: int) -> StatsView {
        StatsView {
            total_lent: self.total_lent + amount,
            active_loans: self.active_loans + 1,
            ..self
        }
    }

    /// The statistics after the identity drew `amount` from the pool as one
    /// more loan.
    pub open spec fn after_borrowing(self, amount: int) -> StatsView {
        StatsView {
            total_borrowed: self.total_borrowed + amount,
            active_loans: self.active_loans + 1,
            ..self
        }
    }

    /// The statistics after one of the identity's loans was settled: one
    /// active loan fewer, and never fewer than none.
    pub open spec fn after_settling(self) -> StatsView {
        StatsView {
            active_loans: if self.active_loans > 0 {
                self.active_loans - 1
            } else {
                self.active_loans
            },
            ..self
        }
    }
}

/// The running totals of one identity. An identity without a record has the
/// totals of [`UserStats::zero`].
#[derive(Clone, Copy, Debug, PartialEq, Eq, Structural)]
pub struct UserStats {
    /// All that the identity ever paid into the pool as a lender.
    pub total_lent: i128,
    /// All that the identity ever drew from the pool as a borrower.
    pub total_borrowed: i128,
    /// The number of the identity's loans that are not settled.
    pub active_loans: u32,
}

impl View for UserStats {
    type V = StatsView;

    open spec fn view(&self) -> StatsView {
        StatsView {
            total_lent: self.total_lent as int,
            total_borrowed: self.total_borrowed as int,
            active_loans: self.active_loans as int,
        }
    }
}

impl UserStats {
    /// The statistics of an identity without history.
    pub fn zero() -> (stats: UserStats)
        ensures
            stats@ == StatsView::zero(),
    {
        UserStats { total_lent: 0, total_borrowed: 0, active_loans: 0 }
    }

    /// Records that the identity paid `amount` into the pool and became the
    /// borrower of record of one more loan.
    pub fn after_lending(self, amount: i128) -> (stats: UserStats)
        requires
            i128::MIN <= self.total_lent + amount <= i128::MAX,
            self.active_loans < u32::MAX,
        ensures
            stats@ == self@.after_lending(amount as int),
    {
        UserStats {
            total_lent: self.total_lent + amount,
            total_borrowed: self.total_borrowed,
            active_loans: self.active_loans + 1,
        }
    }

    /// Records that the identity drew `amount` from the pool as one more
    /// loan.
    pub fn after_borrowing(self, amount: i128) -> (stats: UserStats)
        requires
            i128::MIN <= self.total_borrowed + amount <= i128::MAX,
            self.active_loans < u32::MAX,
        ensures
            stats@ == self@.after_borrowing(amount as int),
    {
        UserStats {
            total_lent: self.total_lent,
            total_borrowed: self.total_borrowed + amount,
            active_loans: self.active_loans + 1,
        }
    }

    /// Records that one of the identity's loans was settled. The count of
    /// active loans stops at zero.
    pub fn after_settling(self) -> (stats: UserStats)
        ensures
            stats@ == self@.after_settling(),
    {
        UserStats {
            total_lent: self.total_lent,
            total_borrowed: self.total_borrowed,
            active_loans: if self.active_loans > 0 {
                self.active_loans - 1
            } else {
                0
            },
        }
    }
}

} // verus!
