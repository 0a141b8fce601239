//! The ledger itself: the records of all loans and all identities, and the
//! operations that change them.

use vstd::prelude::*;
use crate::error::Error;
use crate::identity::Identity;
use crate::laws::{
    lemma_active_loans_bounded, lemma_empty_consistent, lemma_initialize_consistent,
    lemma_issue_consistent, lemma_settle_consistent,
};
use crate::model::LedgerState;
use crate::records::{Config, LoanRequest, LoanView, StatsView, UserStats};
use crate::rules::{
    asks, config_view, credit_query, issue_credit, loan_view, posts, settle_loan,
    settlement_query, spec_treasury_query, treasury_query, BalanceQuery, Posting, Role,
};

verus! {

/// The statistics on record for one identity.
#[derive(Debug)]
struct Account {
    owner: Identity,
    stats: UserStats,
}

/// Whether the record at `i` is that of `who`.
spec fn holds(accounts: Seq<Account>, who: Seq<u8>, i: int) -> bool {
    0 <= i < accounts.len() && accounts[i].owner@ == who
}

/// Whether `who` has a record.
spec fn listed(accounts: Seq<Account>, who: Seq<u8>) -> bool {
    exists|i: int| holds(accounts, who, i)
}

/// Where the record of `who` stands, if it has one.
spec fn slot(accounts: Seq<Account>, who: Seq<u8>) -> int {
    choose|i: int| holds(accounts, who, i)
}

/// No identity has two records.
spec fn distinct(accounts: Seq<Account>) -> bool {
    forall|i: int, j: int|
        holds(accounts, accounts[i].owner@, j) && 0 <= i < accounts.len() ==> i == j
}

/// The statistics on record, by identity.
spec fn stats_map(accounts: Seq<Account>) -> Map<Seq<u8>, StatsView> {
    Map::new(
        |who: Seq<u8>| listed(accounts, who),
        |who: Seq<u8>| accounts[slot(accounts, who)].stats@,
    )
}

/// The loans on record, by id: the first loan issued has id one.
spec fn loans_map(loans: Seq<LoanRequest>) -> Map<int, LoanView> {
    Map::new(|id: int| 1 <= id <= loans.len(), |id: int| loans[id - 1]@)
}

/// The record found at `i` is the one that the map shows for `who`.
proof fn lemma_slot_found(accounts: Seq<Account>, who: Seq<u8>, i: int)
    requires
        distinct(accounts),
        holds(accounts, who, i),
    ensures
        listed(accounts, who),
        slot(accounts, who) == i,
        stats_map(accounts).dom().contains(who),
        stats_map(accounts)[who] == accounts[i].stats@,
{
    assert(holds(accounts, who, slot(accounts, who)));
}

/// Writing new statistics into the record at `i` changes the map at that
/// record's identity and nowhere else.
proof fn lemma_stats_updated(before: Seq<Account>, after: Seq<Account>, who: Seq<u8>, i: int)
    requires
        distinct(before),
        holds(before, who, i),
        after.len() == before.len(),
        after[i].owner@ == who,
        forall|j: int| 0 <= j < before.len() && j != i ==> after[j] == before[j],
    ensures
        distinct(after),
        stats_map(after) == stats_map(before).insert(who, after[i].stats@),
{
    assert forall|k: int| 0 <= k < before.len() implies #[trigger] after[k].owner@
        == before[k].owner@ by {}
    assert forall|a: int, b: int|
        holds(after, after[a].owner@, b) && 0 <= a < after.len() implies a == b by {
        assert(holds(before, before[a].owner@, b));
    }
    assert forall|w: Seq<u8>| listed(after, w) == listed(before, w) by {
        if listed(after, w) {
            assert(holds(before, w, slot(after, w)));
        }
        if listed(before, w) {
            assert(holds(after, w, slot(before, w)));
        }
    }
    lemma_slot_found(before, who, i);
    lemma_slot_found(after, who, i);
    assert forall|w: Seq<u8>| w != who && listed(before, w) implies stats_map(after)[w]
        == stats_map(before)[w] by {
        lemma_slot_found(after, w, slot(before, w));
    }
    assert(stats_map(after) =~= stats_map(before).insert(who, after[i].stats@));
}

/// Adding a record for an identity that had none changes the map at that
/// identity and nowhere else.
proof fn lemma_stats_added(before: Seq<Account>, account: Account)
    requires
        distinct(before),
        !listed(before, account.owner@),
    ensures
        distinct(before.push(account)),
        stats_map(before.push(account)) == stats_map(before).insert(
            account.owner@,
            account.stats@,
        ),
{
    let after = before.push(account);
    let who = account.owner@;
    let last = before.len() as int;
    assert forall|a: int, b: int|
        holds(after, after[a].owner@, b) && 0 <= a < after.len() implies a == b by {
        if a < last && b < last {
            assert(holds(before, before[a].owner@, b));
        } else if a < last {
            assert(holds(before, who, a));
        } else if b < last {
            assert(holds(before, who, b));
        }
    }
    lemma_slot_found(after, who, last);
    assert forall|w: Seq<u8>| w != who implies listed(after, w) == listed(before, w) by {
        if listed(after, w) {
            assert(holds(before, w, slot(after, w)));
        }
        if listed(before, w) {
            assert(holds(after, w, slot(before, w)));
        }
    }
    assert forall|w: Seq<u8>| w != who && listed(before, w) implies stats_map(after)[w]
        == stats_map(before)[w] by {
        lemma_slot_found(after, w, slot(before, w));
    }
    assert(stats_map(after) =~= stats_map(before).insert(who, account.stats@));
}

/// Records that agree one by one in owner and statistics make the same map.
proof fn lemma_same_records(before: Seq<Account>, after: Seq<Account>)
    requires
        distinct(before),
        after.len() == before.len(),
        forall|i: int|
            0 <= i < before.len() ==> (#[trigger] after[i]).owner@ == before[i].owner@
                && after[i].stats == before[i].stats,
    ensures
        distinct(after),
        stats_map(after) == stats_map(before),
{
    assert forall|a: int, b: int|
        holds(after, after[a].owner@, b) && 0 <= a < after.len() implies a == b by {
        assert(holds(before, before[a].owner@, b));
    }
    assert forall|w: Seq<u8>| listed(after, w) == listed(before, w) by {
        if listed(after, w) {
            assert(holds(before, w, slot(after, w)));
        }
        if listed(before, w) {
            assert(holds(after, w, slot(before, w)));
        }
    }
    assert forall|w: Seq<u8>| listed(before, w) implies stats_map(after)[w] == stats_map(
        before,
    )[w] by {
        lemma_slot_found(after, w, slot(before, w));
    }
    assert(stats_map(after) =~= stats_map(before));
}

/// Looks for the record of `who`.
fn find(accounts: &Vec<Account>, who: &Identity) -> (found: Option<usize>)
    ensures
        match found {
            Some(i) => holds(accounts@, who@, i as int),
            None => !listed(accounts@, who@),
        },
{
    let mut i: usize = 0;
    while i < accounts.len()
        invariant
            i <= accounts.len(),
            forall|j: int| 0 <= j < i ==> !holds(accounts@, who@, j),
        decreases accounts.len() - i,
    {
        if accounts[i].owner.same_as(who) {
            return Some(i);
        }
        i += 1;
    }
    None
}

/// The statistics of `who`, given where its record stands.
fn read(accounts: &Vec<Account>, found: Option<usize>, who: &Identity) -> (stats: UserStats)
    requires
        distinct(accounts@),
        match found {
            Some(i) => holds(accounts@, who@, i as int),
            None => !listed(accounts@, who@),
        },
    ensures
        stats@ == if stats_map(accounts@).dom().contains(who@) {
            stats_map(accounts@)[who@]
        } else {
            StatsView::zero()
        },
{
    match found {
        Some(i) => {
            proof {
                lemma_slot_found(accounts@, who@, i as int);
            }
            accounts[i].stats
        },
        None => UserStats::zero(),
    }
}

/// Writes `stats` as the statistics of `who`, given where its record stands.
fn write(accounts: &mut Vec<Account>, found: Option<usize>, who: &Identity, stats: UserStats)
    requires
        distinct(old(accounts)@),
        match found {
            Some(i) => holds(old(accounts)@, who@, i as int),
            None => !listed(old(accounts)@, who@),
        },
    ensures
        distinct(final(accounts)@),
        stats_map(final(accounts)@) == stats_map(old(accounts)@).insert(who@, stats@),
{
    match found {
        Some(i) => {
            accounts[i].stats = stats;
            proof {
                lemma_stats_updated(old(accounts)@, accounts@, who@, i as int);
            }
        },
        None => {
            let account = Account { owner: who.clone(), stats };
            proof {
                lemma_stats_added(old(accounts)@, account);
            }
            accounts.push(account);
        },
    }
}

/// A micro-lending ledger: its configuration, its loans and the statistics
/// of every identity that took part.
///
/// The operations take what the host observed (balances, the time) as
/// arguments and return what the host has to do (a transfer, an event) in a
/// [`Posting`]. A refused operation changes nothing. After a granted one the
/// ledger holds the new records; the host keeps that ledger only once the
/// posting's transfer went through, and otherwise goes on with the ledger as
/// it was before the call.
#[derive(Debug)]
pub struct MicroLendContract {
    config: Option<Config>,
    loan_counter: u32,
    loans: Vec<LoanRequest>,
    accounts: Vec<Account>,
}

impl View for MicroLendContract {
    type V = LedgerState;

    closed spec fn view(&self) -> LedgerState {
        LedgerState {
            config: match self.config {
                Some(config) => Some(config@),
                None => None,
            },
            loan_counter: self.loan_counter as int,
            loans: loans_map(self.loans@),
            stats: stats_map(self.accounts@),
        }
    }
}

impl Clone for MicroLendContract {
    /// A copy of this ledger. A host that has to undo an operation, because
    /// the transfer it asked for failed, takes the copy before the
    /// operation and goes on with it.
    fn clone(&self) -> (copy: MicroLendContract)
        ensures
            self.wf() ==> copy.wf() && copy@ == self@,
    {
        let mut loans: Vec<LoanRequest> = Vec::with_capacity(self.loans.len());
        let mut i: usize = 0;
        while i < self.loans.len()
            invariant
                i <= self.loans.len(),
                loans.len() == i,
                forall|j: int| 0 <= j < i ==> (#[trigger] loans[j])@ == self.loans[j]@,
            decreases self.loans.len() - i,
        {
            loans.push(self.loans[i].clone());
            i += 1;
        }
        let mut accounts: Vec<Account> = Vec::with_capacity(self.accounts.len());
        let mut k: usize = 0;
        while k < self.accounts.len()
            invariant
                k <= self.accounts.len(),
                accounts.len() == k,
                forall|j: int|
                    0 <= j < k ==> (#[trigger] accounts[j]).owner@ == self.accounts[j].owner@
                        && accounts[j].stats == self.accounts[j].stats,
            decreases self.accounts.len() - k,
        {
            accounts.push(
                Account { owner: self.accounts[k].owner.clone(), stats: self.accounts[k].stats },
            );
            k += 1;
        }
        let config = match &self.config {
            Some(config) => Some(config.clone()),
            None => None,
        };
        let copy = MicroLendContract { config, loan_counter: self.loan_counter, loans, accounts };
        proof {
            if self.wf() {
                lemma_same_records(self.accounts@, copy.accounts@);
                assert(copy@ =~= self@);
            }
        }
        copy
    }
}

/// Whether a ledger went from `before` to `after` as `expected` says: to the
/// expected ledger where the operation is granted, and nowhere where it is
/// refused, with `outcome` telling which.
pub open spec fn follows<T>(
    before: LedgerState,
    after: LedgerState,
    outcome: Result<T, Error>,
    expected: Result<LedgerState, Error>,
) -> bool {
    match expected {
        Ok(next) => outcome is Ok && after == next,
        Err(e) => outcome is Err && outcome->Err_0 == e && after == before,
    }
}

impl MicroLendContract {
    /// Whether the ledger's own bookkeeping is in order: one record per
    /// loan issued, one record per identity.
    pub closed spec fn well_kept(&self) -> bool {
        &&& self.loans.len() == self.loan_counter
        &&& distinct(self.accounts@)
    }

    /// Whether this is a ledger as the operations make it. Every operation
    /// asks for such a ledger and leaves one.
    pub open spec fn wf(&self) -> bool {
        self.well_kept() && self@.consistent()
    }

    /// A ledger that is not initialized yet.
    pub fn new() -> (ledger: MicroLendContract)
        ensures
            ledger.wf(),
            ledger@ == LedgerState::empty(),
    {
        let ledger = MicroLendContract {
            config: None,
            loan_counter: 0,
            loans: Vec::new(),
            accounts: Vec::new(),
        };
        proof {
            lemma_empty_consistent();
            assert(ledger@ =~= LedgerState::empty());
        }
        ledger
    }

    /// Configures the ledger with `treasury` as its pool and `native_token`
    /// as its credit asset, and starts the loan counter at zero. This is
    /// granted once; afterwards it is refused as already initialized.
    ///
    /// The host has authenticated `treasury`.
    pub fn initialize(&mut self, treasury: Identity, native_token: Identity) -> (outcome: Result<
        (),
        Error,
    >)
        requires
            old(self).wf(),
        ensures
            final(self).wf(),
            follows(
                old(self)@,
                final(self)@,
                outcome,
                old(self)@.initialize(treasury@, native_token@),
            ),
    {
        match crate::rules::initialize(self.config.is_some(), treasury, native_token) {
            Ok(config) => {
                self.config = Some(config);
                self.loan_counter = 0;
                proof {
                    lemma_initialize_consistent(old(self)@, treasury@, native_token@);
                }
                Ok(())
            },
            Err(e) => Err(e),
        }
    }

    /// Tells the host what to ask the token before `who` asks for credit in
    /// `role`: the balance of the paying side, which is `who` for a lender
    /// and the pool for a borrower. On a ledger that is not initialized the
    /// request is refused here already.
    pub fn credit_query<'a>(&'a self, role: Role, who: &'a Identity) -> (query: Result<
        BalanceQuery<'a>,
        Error,
    >)
        ensures
            asks(query, self@.credit_query(role, who@)),
    {
        credit_query(role, who, self.config.as_ref())
    }

    /// Tells the host what to ask the token before `who` asks to settle the
    /// loan `loan_id`: the balance of `who`. A request that is refused
    /// whatever `who` holds is refused here already.
    pub fn settlement_query<'a>(&'a self, who: &'a Identity, loan_id: u32) -> (query: Result<
        BalanceQuery<'a>,
        Error,
    >)
        requires
            self.wf(),
        ensures
            asks(query, self@.settlement_query(who@, loan_id as int)),
    {
        settlement_query(who, self.config.as_ref(), self.loan_on_record(loan_id))
    }

    /// The record of the loan `loan_id`, if a loan was issued under that id.
    fn loan_on_record(&self, loan_id: u32) -> (loan: Option<&LoanRequest>)
        requires
            self.wf(),
        ensures
            loan_view(loan) == self@.loan(loan_id as int),
    {
        if 1 <= loan_id && loan_id <= self.loan_counter {
            Some(&self.loans[(loan_id - 1) as usize])
        } else {
            None
        }
    }

    /// Issues one credit unit to `who` in `role`.
    fn issue(&mut self, role: Role, who: &Identity, source_balance: i128, now: u64) -> (outcome:
        Result<Posting, Error>)
        requires
            old(self).wf(),
            old(self)@.issue(role, who@, source_balance as int, now) is Ok ==> old(
                self,
            )@.loan_counter < u32::MAX,
        ensures
            final(self).wf(),
            posts(outcome, old(self)@.issue_posting(role, who@, source_balance as int, now)),
            follows(
                old(self)@,
                final(self)@,
                outcome,
                old(self)@.issue(role, who@, source_balance as int, now),
            ),
    {
        let found = find(&self.accounts, who);
        let stats = read(&self.accounts, found, who);
        proof {
            lemma_active_loans_bounded(self@, who@);
        }
        let posting = match issue_credit(
            role,
            who,
            self.config.as_ref(),
            self.loan_counter,
            stats,
            source_balance,
            now,
        ) {
            Ok(posting) => posting,
            Err(e) => {
                return Err(e);
            },
        };
        self.loans.push(posting.loan.clone());
        self.loan_counter = posting.loan_id;
        write(&mut self.accounts, found, who, posting.stats);
        proof {
            let next = old(self)@.issue(role, who@, source_balance as int, now)->Ok_0;
            lemma_issue_consistent(old(self)@, role, who@, source_balance as int, now);
            assert(self@ =~= next);
        }
        Ok(posting)
    }

    /// `lender` pays one credit unit into the pool and becomes the borrower
    /// of record of a new loan.
    ///
    /// `lender_balance` is the token's answer to
    /// [`MicroLendContract::credit_query`] for a lender, `now` the host's
    /// time. The host has authenticated `lender`.
    ///
    /// The request is refused on a ledger that is not initialized, and for
    /// insufficient balance where `lender` holds less than one credit unit.
    /// Otherwise the posting asks for one credit unit to move from `lender`
    /// to the pool and announces a lend event; the new loan has the next
    /// id, and the statistics of `lender` show one credit unit more lent and
    /// one more active loan. A granted request needs a counter that can
    /// still grow.
    pub fn lend_credit(&mut self, lender: &Identity, lender_balance: i128, now: u64) -> (outcome:
        Result<Posting, Error>)
        requires
            old(self).wf(),
            old(self)@.issue(Role::Lender, lender@, lender_balance as int, now) is Ok ==> old(
                self,
            )@.loan_counter < u32::MAX,
        ensures
            final(self).wf(),
            posts(
                outcome,
                old(self)@.issue_posting(Role::Lender, lender@, lender_balance as int, now),
            ),
            follows(
                old(self)@,
                final(self)@,
                outcome,
                old(self)@.issue(Role::Lender, lender@, lender_balance as int, now),
            ),
    {
        self.issue(Role::Lender, lender, lender_balance, now)
    }

    /// `borrower` draws one credit unit from the pool as a new loan.
    ///
    /// `treasury_balance` is the token's answer to
    /// [`MicroLendContract::credit_query`] for a borrower, `now` the host's
    /// time. The host has authenticated `borrower`.
    ///
    /// The request is refused on a ledger that is not initialized, and for
    /// insufficient balance where the pool holds less than one credit unit.
    /// Otherwise the posting asks for one credit unit to move from the pool
    /// to `borrower` and announces a borrow event; the new loan has the
    /// next id, and the statistics of `borrower` show one credit unit more
    /// borrowed and one more active loan. A granted request needs a counter
    /// that can still grow.
    pub fn borrow_credit(&mut self, borrower: &Identity, treasury_balance: i128, now: u64) -> (outcome:
        Result<Posting, Error>)
        requires
            old(self).wf(),
            old(self)@.issue(Role::Borrower, borrower@, treasury_balance as int, now) is Ok ==> old(
                self,
            )@.loan_counter < u32::MAX,
        ensures
            final(self).wf(),
            posts(
                outcome,
                old(self)@.issue_posting(Role::Borrower, borrower@, treasury_balance as int, now),
            ),
            follows(
                old(self)@,
                final(self)@,
                outcome,
                old(self)@.issue(Role::Borrower, borrower@, treasury_balance as int, now),
            ),
    {
        self.issue(Role::Borrower, borrower, treasury_balance, now)
    }

    /// `borrower` settles the loan `loan_id`.
    ///
    /// `borrower_balance` is the token's answer to
    /// [`MicroLendContract::settlement_query`]. The host has authenticated
    /// `borrower`.
    ///
    /// The request is refused, in this order: on a ledger that is not
    /// initialized; where no loan has that id; where the loan is settled
    /// already; where it stands on another identity's record; where
    /// `borrower` holds less than the loan's amount. Otherwise the posting
    /// asks for the amount to move from `borrower` to the pool and
    /// announces a repay event; the loan is settled, and `borrower` has one
    /// active loan fewer.
    pub fn repay_loan(&mut self, borrower: &Identity, loan_id: u32, borrower_balance: i128) -> (outcome:
        Result<Posting, Error>)
        requires
            old(self).wf(),
        ensures
            final(self).wf(),
            posts(
                outcome,
                old(self)@.settle_posting(borrower@, loan_id as int, borrower_balance as int),
            ),
            follows(
                old(self)@,
                final(self)@,
                outcome,
                old(self)@.settle(borrower@, loan_id as int, borrower_balance as int),
            ),
    {
        let found = find(&self.accounts, borrower);
        let stats = read(&self.accounts, found, borrower);
        let posting = match settle_loan(
            borrower,
            loan_id,
            self.config.as_ref(),
            self.loan_on_record(loan_id),
            stats,
            borrower_balance,
        ) {
            Ok(posting) => posting,
            Err(e) => {
                return Err(e);
            },
        };
        self.loans[(loan_id - 1) as usize] = posting.loan.clone();
        write(&mut self.accounts, found, borrower, posting.stats);
        proof {
            let next = old(self)@.settle(
                borrower@,
                loan_id as int,
                borrower_balance as int,
            )->Ok_0;
            lemma_settle_consistent(
                old(self)@,
                borrower@,
                loan_id as int,
                borrower_balance as int,
            );
            assert(self@ =~= next);
        }
        Ok(posting)
    }

    /// The statistics of `user`: all zero for an identity without history.
    pub fn get_user_stats(&self, user: &Identity) -> (stats: UserStats)
        requires
            self.wf(),
        ensures
            stats@ == self@.stats_of(user@),
    {
        let found = find(&self.accounts, user);
        read(&self.accounts, found, user)
    }

    /// The record of the loan `loan_id`, if a loan was issued under that id.
    pub fn get_loan(&self, loan_id: u32) -> (loan: Option<LoanRequest>)
        requires
            self.wf(),
        ensures
            match self@.loan(loan_id as int) {
                Some(record) => loan is Some && loan->Some_0@ == record,
                None => loan is None,
            },
    {
        match self.loan_on_record(loan_id) {
            Some(record) => Some(record.clone()),
            None => None,
        }
    }

    /// The pool, once the ledger is initialized.
    pub fn get_treasury(&self) -> (treasury: Option<Identity>)
        ensures
            match self@.config {
                Some(config) => treasury is Some && treasury->Some_0@ == config.treasury,
                None => treasury is None,
            },
    {
        match &self.config {
            Some(config) => Some(config.treasury.clone()),
            None => None,
        }
    }

    /// The configuration, once the ledger is initialized. A host finds here
    /// the token to ask for balances and the pool to ask about.
    pub fn get_config(&self) -> (config: Option<&Config>)
        ensures
            config_view(config) == self@.config,
    {
        self.config.as_ref()
    }

    /// The number of loans issued so far: zero on a ledger that is not
    /// initialized.
    pub fn get_loan_count(&self) -> (count: u32)
        ensures
            count == self@.loan_counter,
    {
        self.loan_counter
    }

    /// Tells the host what to ask the token to learn the balance of the
    /// pool, or refuses on a ledger that is not initialized.
    pub fn treasury_query(&self) -> (query: Result<BalanceQuery<'_>, Error>)
        ensures
            asks(query, spec_treasury_query(self@.config)),
    {
        treasury_query(self.config.as_ref())
    }

    /// The balance of the pool in the credit asset, where `reported` is the
    /// token's answer to [`MicroLendContract::treasury_query`].
    /// On a ledger that is not initialized there is no pool to ask about,
    /// and the request is refused.
    pub fn get_treasury_balance(&self, reported: i128) -> (balance: Result<i128, Error>)
        ensures
            match spec_treasury_query(self@.config) {
                Ok(_) => balance == Ok::<i128, Error>(reported),
                Err(e) => balance == Err::<i128, Error>(e),
            },
    {
        match treasury_query(self.config.as_ref()) {
            Ok(_) => Ok(reported),
            Err(e) => Err(e),
        }
    }
}

} // verus!
