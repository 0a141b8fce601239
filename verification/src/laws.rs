//! What holds of the ledger whatever calls are made, proved of the model
//! that the executable ledger is specified by.

use vstd::prelude::*;
use vstd::set_lib::{lemma_int_range, lemma_len_subset, set_int_range};
use crate::error::Error;
use crate::model::{Call, LedgerState};
use crate::records::{ConfigView, LoanView, CREDIT_UNIT};
use crate::rules::{PostingView, Role};

verus! {

/// On a consistent ledger the unsettled loans of an identity are finitely
/// many, and no more than the loans issued.
pub proof fn lemma_active_loans_bounded(s: LedgerState, who: Seq<u8>)
    requires
        s.consistent(),
    ensures
        s.active_loans_of(who).finite(),
        s.active_loans_of(who).len() <= s.loan_counter,
{
    let ids = set_int_range(1, s.loan_counter + 1);
    lemma_int_range(1, s.loan_counter + 1);
    assert(s.active_loans_of(who).subset_of(ids)) by {
        assert forall|id: int| s.active_loans_of(who).contains(id) implies ids.contains(id) by {
            assert(s.loans.dom().contains(id));
        }
    }
    lemma_len_subset(s.active_loans_of(who), ids);
}

/// The ledger before it is initialized is consistent.
pub proof fn lemma_empty_consistent()
    ensures
        LedgerState::empty().consistent(),
{
    let s = LedgerState::empty();
    assert forall|who: Seq<u8>|
        (#[trigger] s.stats_of(who)).active_loans == s.active_loans_of(who).len() by {
        assert(s.active_loans_of(who) =~= Set::empty());
    }
}

/// Configuring a consistent ledger leaves it consistent, with the loans and
/// the counter it had.
pub proof fn lemma_initialize_consistent(s: LedgerState, treasury: Seq<u8>, native_token: Seq<u8>)
    requires
        s.consistent(),
        s.initialize(treasury, native_token) is Ok,
    ensures
        s.initialize(treasury, native_token)->Ok_0.consistent(),
        s.initialize(treasury, native_token)->Ok_0.loan_counter == s.loan_counter,
        s.initialize(treasury, native_token)->Ok_0.loans == s.loans,
{
    let t = s.initialize(treasury, native_token)->Ok_0;
    assert forall|who: Seq<u8>|
        (#[trigger] t.stats_of(who)).active_loans == t.active_loans_of(who).len() by {
        assert(t.stats_of(who) == s.stats_of(who));
    }
    assert forall|who: Seq<u8>|
        0 <= (#[trigger] t.stats_of(who)).total_lent <= CREDIT_UNIT * t.loan_counter by {
        assert(t.stats_of(who) == s.stats_of(who));
    }
    assert forall|who: Seq<u8>|
        0 <= (#[trigger] t.stats_of(who)).total_borrowed <= CREDIT_UNIT * t.loan_counter by {
        assert(t.stats_of(who) == s.stats_of(who));
    }
}

/// Issuing credit on a consistent ledger leaves it consistent, with one
/// loan more and the loans it had unchanged.
pub proof fn lemma_issue_consistent(
    s: LedgerState,
    role: Role,
    who: Seq<u8>,
    source_balance: int,
    now: u64,
)
    requires
        s.consistent(),
        s.issue(role, who, source_balance, now) is Ok,
    ensures
        s.issue(role, who, source_balance, now)->Ok_0.consistent(),
        s.issue(role, who, source_balance, now)->Ok_0.loan_counter == s.loan_counter + 1,
        forall|id: int| #[trigger]
            s.loans.dom().contains(id) ==> s.issue(role, who, source_balance, now)->Ok_0.loan(id)
                == s.loan(id),
{
    let t = s.issue(role, who, source_balance, now)->Ok_0;
    let new_id = s.loan_counter + 1;
    assert forall|w: Seq<u8>|
        (#[trigger] t.stats_of(w)).active_loans == t.active_loans_of(w).len() by {
        lemma_active_loans_bounded(s, w);
        assert(s.stats_of(w).active_loans == s.active_loans_of(w).len());
        if w == who {
            assert(t.active_loans_of(w) =~= s.active_loans_of(w).insert(new_id));
        } else {
            assert(t.active_loans_of(w) =~= s.active_loans_of(w));
        }
    }
    assert forall|w: Seq<u8>|
        0 <= (#[trigger] t.stats_of(w)).total_lent <= CREDIT_UNIT * t.loan_counter by {
        assert(0 <= s.stats_of(w).total_lent <= CREDIT_UNIT * s.loan_counter);
    }
    assert forall|w: Seq<u8>|
        0 <= (#[trigger] t.stats_of(w)).total_borrowed <= CREDIT_UNIT * t.loan_counter by {
        assert(0 <= s.stats_of(w).total_borrowed <= CREDIT_UNIT * s.loan_counter);
    }
}

/// Settling a loan on a consistent ledger leaves it consistent, with the
/// counter it had and all other loans unchanged.
pub proof fn lemma_settle_consistent(s: LedgerState, who: Seq<u8>, loan_id: int, balance: int)
    requires
        s.consistent(),
        s.settle(who, loan_id, balance) is Ok,
    ensures
        s.settle(who, loan_id, balance)->Ok_0.consistent(),
        s.settle(who, loan_id, balance)->Ok_0.loan_counter == s.loan_counter,
        s.settle(who, loan_id, balance)->Ok_0.loans.dom() == s.loans.dom(),
        forall|id: int|
            id != loan_id ==> #[trigger] s.settle(who, loan_id, balance)->Ok_0.loan(id) == s.loan(
                id,
            ),
        s.settle(who, loan_id, balance)->Ok_0.loan(loan_id) == Some(s.loans[loan_id].settled()),
{
    let t = s.settle(who, loan_id, balance)->Ok_0;
    assert forall|w: Seq<u8>|
        (#[trigger] t.stats_of(w)).active_loans == t.active_loans_of(w).len() by {
        lemma_active_loans_bounded(s, w);
        assert(s.stats_of(w).active_loans == s.active_loans_of(w).len());
        if w == who {
            assert(t.active_loans_of(w) =~= s.active_loans_of(w).remove(loan_id));
        } else {
            assert(t.active_loans_of(w) =~= s.active_loans_of(w));
        }
    }
    assert forall|w: Seq<u8>|
        0 <= (#[trigger] t.stats_of(w)).total_lent <= CREDIT_UNIT * t.loan_counter by {
        assert(0 <= s.stats_of(w).total_lent <= CREDIT_UNIT * s.loan_counter);
    }
    assert forall|w: Seq<u8>|
        0 <= (#[trigger] t.stats_of(w)).total_borrowed <= CREDIT_UNIT * t.loan_counter by {
        assert(0 <= s.stats_of(w).total_borrowed <= CREDIT_UNIT * s.loan_counter);
    }
}

/// Whether `later` is what a loan record `earlier` can become: the same
/// record, or the same record settled.
pub open spec fn follows_up(earlier: Option<LoanView>, later: Option<LoanView>) -> bool {
    &&& earlier is Some
    &&& later is Some
    &&& later == earlier || (earlier->Some_0.is_active && later->Some_0 == earlier->Some_0.settled())
}

/// Whatever the call, a consistent ledger is consistent after it. Its
/// counter has grown by one where the call issued a loan, and not at all
/// otherwise; its configuration changed only by being set; and every loan
/// on record is still on record, unchanged or settled.
pub proof fn lemma_call_consistent(s: LedgerState, call: Call)
    requires
        s.consistent(),
    ensures
        s.after(call).consistent(),
        s.after(call).loan_counter == s.loan_counter + if call.issues() && s.apply(call) is Ok {
            1int
        } else {
            0int
        },
        s.after(call).config == if s.config is None && call is Initialize {
            s.apply(call)->Ok_0.config
        } else {
            s.config
        },
        forall|id: int| #[trigger]
            s.loans.dom().contains(id) ==> follows_up(s.loan(id), s.after(call).loan(id)),
{
    match call {
        Call::Initialize { treasury, native_token } => {
            if s.apply(call) is Ok {
                lemma_initialize_consistent(s, treasury, native_token);
            }
        },
        Call::Lend { lender, balance, now } => {
            if s.apply(call) is Ok {
                lemma_issue_consistent(s, Role::Lender, lender, balance, now);
            }
        },
        Call::Borrow { borrower, treasury_balance, now } => {
            if s.apply(call) is Ok {
                lemma_issue_consistent(s, Role::Borrower, borrower, treasury_balance, now);
            }
        },
        Call::Repay { borrower, loan_id, balance } => {
            if s.apply(call) is Ok {
                lemma_settle_consistent(s, borrower, loan_id, balance);
            }
        },
    }
}

/// Loans are counted as they are issued.
///
/// Start from any consistent ledger and make any calls in any order. Then
/// the loan counter has grown by exactly the number of calls that issued a
/// loan, and the ids that have a loan on record are those from one to the
/// counter. The ledger is consistent again.
pub proof fn law_issued_loans_are_counted(s: LedgerState, history: Seq<Call>)
    requires
        s.consistent(),
    ensures
        s.after_all(history).consistent(),
        s.after_all(history).loan_counter == s.loan_counter + s.issuances(history),
        forall|id: int|
            1 <= id <= s.after_all(history).loan_counter <==> #[trigger] s.after_all(history).loan(
                id,
            ) is Some,
    decreases history.len(),
{
    if history.len() > 0 {
        law_issued_loans_are_counted(s, history.drop_last());
        lemma_call_consistent(s.after_all(history.drop_last()), history.last());
    }
    let t = s.after_all(history);
    assert forall|id: int| 1 <= id <= t.loan_counter <==> #[trigger] t.loan(id) is Some by {
        assert(t.loans.dom().contains(id) <==> 1 <= id <= t.loan_counter);
    }
}

/// A ledger that starts empty counts exactly the loans it issued.
pub proof fn law_fresh_ledger_counts_issuances(history: Seq<Call>)
    ensures
        LedgerState::empty().after_all(history).loan_counter == LedgerState::empty().issuances(
            history,
        ),
{
    lemma_empty_consistent();
    law_issued_loans_are_counted(LedgerState::empty(), history);
}

/// The statistics count the unsettled loans.
///
/// Start from any consistent ledger and make any calls in any order. Then
/// for every identity the count of active loans in its statistics is the
/// number of loans on its record that are not settled.
pub proof fn law_active_loans_match_records(s: LedgerState, history: Seq<Call>, who: Seq<u8>)
    requires
        s.consistent(),
    ensures
        s.after_all(history).stats_of(who).active_loans == s.after_all(history).active_loans_of(
            who,
        ).len(),
{
    law_issued_loans_are_counted(s, history);
}

/// A ledger is configured once.
///
/// Where a first request to configure the ledger is granted, any second one
/// is refused as already initialized, and the configuration stays that of
/// the first.
pub proof fn law_initialize_once(
    s: LedgerState,
    treasury: Seq<u8>,
    native_token: Seq<u8>,
    other_treasury: Seq<u8>,
    other_token: Seq<u8>,
)
    requires
        s.initialize(treasury, native_token) is Ok,
    ensures
        ({
            let first = s.initialize(treasury, native_token)->Ok_0;
            let again = Call::Initialize { treasury: other_treasury, native_token: other_token };
            &&& first.config == Some(ConfigView { treasury, native_token })
            &&& first.apply(again) == Err::<LedgerState, Error>(Error::AlreadyInitialized)
            &&& first.after(again) == first
        }),
{
}

/// The configuration never changes.
///
/// Whatever calls are made on an initialized ledger, its configuration is
/// the one it had.
pub proof fn law_config_is_fixed(s: LedgerState, history: Seq<Call>)
    requires
        s.consistent(),
        s.config is Some,
    ensures
        s.after_all(history).config == s.config,
    decreases history.len(),
{
    if history.len() > 0 {
        law_config_is_fixed(s, history.drop_last());
        law_issued_loans_are_counted(s, history.drop_last());
        lemma_call_consistent(s.after_all(history.drop_last()), history.last());
    }
}

/// A loan is repaid once.
///
/// After a repayment that was granted, any further request to settle the
/// same loan, by whomever and with whatever balance, is refused as already
/// paid and changes nothing.
pub proof fn law_repay_once(
    s: LedgerState,
    borrower: Seq<u8>,
    loan_id: int,
    balance: int,
    anyone: Seq<u8>,
    any_balance: int,
)
    requires
        s.settle(borrower, loan_id, balance) is Ok,
    ensures
        ({
            let settled = s.settle(borrower, loan_id, balance)->Ok_0;
            let again = Call::Repay { borrower: anyone, loan_id, balance: any_balance };
            &&& settled.loan(loan_id) is Some
            &&& !settled.loan(loan_id)->Some_0.is_active
            &&& settled.apply(again) == Err::<LedgerState, Error>(Error::LoanAlreadyPaid)
            &&& settled.after(again) == settled
        }),
{
}

/// A loan record changes once, by being settled.
///
/// Take a loan on record in a consistent ledger and make any calls in any
/// order. The loan is still on record, with the borrower, the amount and
/// the time it had. It is active only if it was; so a settled loan stays
/// settled.
pub proof fn law_loans_only_settle(s: LedgerState, history: Seq<Call>, loan_id: int)
    requires
        s.consistent(),
        s.loan(loan_id) is Some,
    ensures
        follows_up(s.loan(loan_id), s.after_all(history).loan(loan_id)),
        !s.loan(loan_id)->Some_0.is_active ==> s.after_all(history).loan(loan_id) == s.loan(
            loan_id,
        ),
    decreases history.len(),
{
    if history.len() > 0 {
        law_loans_only_settle(s, history.drop_last(), loan_id);
        law_issued_loans_are_counted(s, history.drop_last());
        lemma_call_consistent(s.after_all(history.drop_last()), history.last());
    }
}

/// Only the borrower repays.
///
/// A request to settle an unsettled loan that stands on another identity's
/// record is refused as unauthorized: no transfer is asked for, and no
/// record changes.
pub proof fn law_only_the_borrower_repays(
    s: LedgerState,
    who: Seq<u8>,
    loan_id: int,
    balance: int,
)
    requires
        s.consistent(),
        s.loan(loan_id) is Some,
        s.loan(loan_id)->Some_0.is_active,
        s.loan(loan_id)->Some_0.borrower != who,
    ensures
        s.settle_posting(who, loan_id, balance) == Err::<PostingView, Error>(Error::Unauthorized),
        s.apply(Call::Repay { borrower: who, loan_id, balance }) == Err::<LedgerState, Error>(
            Error::Unauthorized,
        ),
        s.after(Call::Repay { borrower: who, loan_id, balance }) == s,
{
}

} // verus!
