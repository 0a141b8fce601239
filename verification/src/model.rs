//! The ledger as a mathematical value, and its operations as functions on
//! that value.
//!
//! The contracts of the executable ledger are stated over this model, and
//! the laws of the crate are proved of it.

use vstd::prelude::*;
use crate::error::Error;
use crate::records::{ConfigView, LoanView, StatsView, CREDIT_UNIT};
use crate::rules::{
    spec_credit_query, spec_initialize, spec_issue_credit, spec_settle_loan,
    spec_settlement_query, BalanceQueryView, PostingView, Role,
};

verus! {

/// All that a ledger holds.
#[verifier::ext_equal]
pub struct LedgerState {
    /// The configuration, once the ledger is initialized.
    pub config: Option<ConfigView>,
    /// The id of the loan issued last; zero before the first.
    pub loan_counter: int,
    /// The loan records by id.
    pub loans: Map<int, LoanView>,
    /// The statistics on record; an identity without a record has those of
    /// [`StatsView::zero`].
    pub stats: Map<Seq<u8>, StatsView>,
}

/// One operation that changes a ledger, with what the host observed for it.
pub enum Call {
    /// `treasury` configures the ledger.
    Initialize { treasury: Seq<u8>, native_token: Seq<u8> },
    /// `lender`, holding `balance`, pays one credit unit into the pool.
    Lend { lender: Seq<u8>, balance: int, now: u64 },
    /// `borrower` draws one credit unit from the pool, which holds
    /// `treasury_balance`.
    Borrow { borrower: Seq<u8>, treasury_balance: int, now: u64 },
    /// `borrower`, holding `balance`, settles the loan `loan_id`.
    Repay { borrower: Seq<u8>, loan_id: int, balance: int },
}

impl LedgerState {
    /// The ledger before it is initialized: no configuration, no loans, no
    /// statistics.
    pub open spec fn empty() -> LedgerState {
        LedgerState { config: None, loan_counter: 0, loans: Map::empty(), stats: Map::empty() }
    }

    /// The record of the loan `loan_id`, if one was issued under that id.
    pub open spec fn loan(self, loan_id: int) -> Option<LoanView> {
        if self.loans.dom().contains(loan_id) {
            Some(self.loans[loan_id])
        } else {
            None
        }
    }

    /// The statistics of `who`: those on record, or all zero.
    pub open spec fn stats_of(self, who: Seq<u8>) -> StatsView {
        if self.stats.dom().contains(who) {
            self.stats[who]
        } else {
            StatsView::zero()
        }
    }

    /// The ids of the loans that stand on the record of `who` and are not
    /// settled.
    pub open spec fn active_loans_of(self, who: Seq<u8>) -> Set<int> {
        Set::new(
            |id: int|
                self.loans.dom().contains(id) && self.loans[id].borrower == who
                    && self.loans[id].is_active,
        )
    }

    /// This ledger with the records of `posting` written: the loan under its
    /// id, the statistics for `who`.
    pub open spec fn record(self, who: Seq<u8>, posting: PostingView) -> LedgerState {
        LedgerState {
            loans: self.loans.insert(posting.loan_id, posting.loan),
            stats: self.stats.insert(who, posting.stats),
            ..self
        }
    }

    /// What the host has to ask the token before a request of `who` for
    /// credit in `role` can be decided, or why the request is refused
    /// without asking.
    pub open spec fn credit_query(self, role: Role, who: Seq<u8>) -> Result<
        BalanceQueryView,
        Error,
    > {
        spec_credit_query(role, who, self.config)
    }

    /// What the host has to ask the token before a request of `who` to
    /// settle the loan `loan_id` can be decided, or why the request is
    /// refused without asking.
    pub open spec fn settlement_query(self, who: Seq<u8>, loan_id: int) -> Result<
        BalanceQueryView,
        Error,
    > {
        spec_settlement_query(who, self.config, self.loan(loan_id))
    }

    /// What a request to configure the ledger yields.
    pub open spec fn initialize(self, treasury: Seq<u8>, native_token: Seq<u8>) -> Result<
        LedgerState,
        Error,
    > {
        match spec_initialize(self.config is Some, treasury, native_token) {
            Ok(config) => Ok(LedgerState { config: Some(config), loan_counter: 0, ..self }),
            Err(e) => Err(e),
        }
    }

    /// What a request of `who` for credit in `role` posts, or why it is
    /// refused.
    pub open spec fn issue_posting(
        self,
        role: Role,
        who: Seq<u8>,
        source_balance: int,
        now: u64,
    ) -> Result<PostingView, Error> {
        spec_issue_credit(
            role,
            who,
            self.config,
            self.loan_counter,
            self.stats_of(who),
            source_balance,
            now,
        )
    }

    /// The ledger after a request of `who` for credit in `role`: with the
    /// posting recorded and the counter advanced to the new loan's id, or
    /// the refusal.
    pub open spec fn issue(self, role: Role, who: Seq<u8>, source_balance: int, now: u64) -> Result<
        LedgerState,
        Error,
    > {
        match self.issue_posting(role, who, source_balance, now) {
            Ok(posting) => Ok(
                LedgerState { loan_counter: posting.loan_id, ..self.record(who, posting) },
            ),
            Err(e) => Err(e),
        }
    }

    /// What a request of `who` to settle the loan `loan_id` posts, or why
    /// it is refused.
    pub open spec fn settle_posting(self, who: Seq<u8>, loan_id: int, balance: int) -> Result<
        PostingView,
        Error,
    > {
        spec_settle_loan(who, loan_id, self.config, self.loan(loan_id), self.stats_of(who), balance)
    }

    /// The ledger after a request of `who` to settle the loan `loan_id`:
    /// with the posting recorded, or the refusal.
    pub open spec fn settle(self, who: Seq<u8>, loan_id: int, balance: int) -> Result<
        LedgerState,
        Error,
    > {
        match self.settle_posting(who, loan_id, balance) {
            Ok(posting) => Ok(self.record(who, posting)),
            Err(e) => Err(e),
        }
    }

    /// What `call` yields on this ledger: the ledger that follows, or the
    /// refusal.
    pub open spec fn apply(self, call: Call) -> Result<LedgerState, Error> {
        match call {
            Call::Initialize { treasury, native_token } => self.initialize(treasury, native_token),
            Call::Lend { lender, balance, now } => self.issue(Role::Lender, lender, balance, now),
            Call::Borrow { borrower, treasury_balance, now } => self.issue(
                Role::Borrower,
                borrower,
                treasury_balance,
                now,
            ),
            Call::Repay { borrower, loan_id, balance } => self.settle(borrower, loan_id, balance),
        }
    }

    /// The ledger after `call`: a refused call leaves it as it was.
    pub open spec fn after(self, call: Call) -> LedgerState {
        match self.apply(call) {
            Ok(next) => next,
            Err(_) => self,
        }
    }

    /// The ledger after the calls of `history`, made in order.
    pub open spec fn after_all(self, history: Seq<Call>) -> LedgerState
        decreases history.len(),
    {
        if history.len() == 0 {
            self
        } else {
            self.after_all(history.drop_last()).after(history.last())
        }
    }

    /// How many calls of `history`, made in order on this ledger, issued a
    /// loan.
    pub open spec fn issuances(self, history: Seq<Call>) -> nat
        decreases history.len(),
    {
        if history.len() == 0 {
            0
        } else {
            let before = self.after_all(history.drop_last());
            let granted: nat = if history.last().issues() && before.apply(history.last()) is Ok {
                1
            } else {
                0
            };
            self.issuances(history.drop_last()) + granted
        }
    }

    /// What holds of every ledger that calls can lead to.
    ///
    /// A ledger without configuration has issued nothing. The loans on
    /// record are those with the ids from one to the counter, each of one
    /// credit unit. For every identity the count of active loans in its
    /// statistics is the number of unsettled loans on its record, and
    /// neither of its totals is negative or beyond one credit unit for
    /// every loan issued.
    pub open spec fn consistent(self) -> bool {
        &&& self.loan_counter >= 0
        &&& self.config is None ==> self.loan_counter == 0
        &&& forall|id: int| #[trigger]
            self.loans.dom().contains(id) <==> 1 <= id <= self.loan_counter
        &&& forall|id: int| #[trigger]
            self.loans.dom().contains(id) ==> self.loans[id].amount == CREDIT_UNIT
        &&& forall|who: Seq<u8>|
            (#[trigger] self.stats_of(who)).active_loans == self.active_loans_of(who).len()
        &&& forall|who: Seq<u8>|
            0 <= (#[trigger] self.stats_of(who)).total_lent <= CREDIT_UNIT * self.loan_counter
        &&& forall|who: Seq<u8>|
            0 <= (#[trigger] self.stats_of(who)).total_borrowed <= CREDIT_UNIT * self.loan_counter
    }
}

impl Call {
    /// Whether this call asks for a loan to be issued.
    pub open spec fn issues(self) -> bool {
        self is Lend || self is Borrow
    }
}

} // verus!
