//! The rules of the ledger, as decisions on single records.
//!
//! Each function here takes the records that one operation reads, together
//! with what the host observed (a balance, the time), and either refuses or
//! returns a [`Posting`]: the records to write, the transfer to execute and
//! the event to publish. Nothing here keeps state; a host that stores its
//! records elsewhere can decide with these functions alone.

use vstd::prelude::*;
use crate::error::Error;
use crate::identity::Identity;
use crate::records::{Config, ConfigView, LoanRequest, LoanView, StatsView, UserStats, CREDIT_UNIT};

verus! {

/// In which capacity an identity asks for credit to be issued.
#[derive(Clone, Copy, Debug, PartialEq, Eq, Structural)]
pub enum Role {
    /// The identity pays one credit unit into the pool.
    Lender,
    /// The identity draws one credit unit from the pool.
    Borrower,
}

/// The three kinds of event that the ledger announces.
#[derive(Clone, Copy, Debug, PartialEq, Eq, Structural)]
pub enum EventKind {
    Lend,
    Borrow,
    Repay,
}

impl EventKind {
    /// The tag under which events of this kind are published.
    pub open spec fn spec_topic(self) -> Seq<char> {
        match self {
            EventKind::Lend => "lend"@,
            EventKind::Borrow => "borrow"@,
            EventKind::Repay => "repay"@,
        }
    }

    /// The tag under which events of this kind are published.
    pub fn topic(self) -> (tag: &'static str)
        ensures
            tag@ == self.spec_topic(),
    {
        match self {
            EventKind::Lend => "lend",
            EventKind::Borrow => "borrow",
            EventKind::Repay => "repay",
        }
    }
}

/// What a [`Transfer`] stands for in contracts.
pub struct TransferView {
    pub from: Seq<u8>,
    pub to: Seq<u8>,
    pub amount: int,
}

/// A payment in the credit asset that the host has to execute.
#[derive(Debug)]
pub struct Transfer {
    pub from: Identity,
    pub to: Identity,
    pub amount: i128,
}

impl View for Transfer {
    type V = TransferView;

    open spec fn view(&self) -> TransferView {
        TransferView { from: self.from@, to: self.to@, amount: self.amount as int }
    }
}

/// What an [`Event`] stands for in contracts.
pub struct EventView {
    pub kind: EventKind,
    pub who: Seq<u8>,
    pub amount: int,
}

/// An announcement that the host has to publish. Nothing in the ledger
/// reads it back.
#[derive(Debug)]
pub struct Event {
    pub kind: EventKind,
    pub who: Identity,
    pub amount: i128,
}

impl View for Event {
    type V = EventView;

    open spec fn view(&self) -> EventView {
        EventView { kind: self.kind, who: self.who@, amount: self.amount as int }
    }
}

/// What a [`BalanceQuery`] stands for in contracts.
pub struct BalanceQueryView {
    pub token: Seq<u8>,
    pub holder: Seq<u8>,
}

/// A question that the host has to put to a token before a request can be
/// decided: how much `holder` holds in `token`.
#[derive(Debug)]
pub struct BalanceQuery<'a> {
    pub token: &'a Identity,
    pub holder: &'a Identity,
}

impl<'a> View for BalanceQuery<'a> {
    type V = BalanceQueryView;

    open spec fn view(&self) -> BalanceQueryView {
        BalanceQueryView { token: self.token@, holder: self.holder@ }
    }
}

/// What a [`Posting`] stands for in contracts.
pub struct PostingView {
    pub loan_id: int,
    pub loan: LoanView,
    pub stats: StatsView,
    pub transfer: TransferView,
    pub event: EventView,
}

/// All that an accepted operation brings about.
///
/// The transfer comes first. Only when it went through are the two records
/// written and the event published; when it fails, nothing of the posting
/// takes effect.
#[derive(Debug)]
pub struct Posting {
    /// The id of the loan that was issued or settled.
    pub loan_id: u32,
    /// The loan's record as it now stands, kept under `loan_id`.
    pub loan: LoanRequest,
    /// The new statistics of the identity that asked.
    pub stats: UserStats,
    /// The payment to execute.
    pub transfer: Transfer,
    /// The event to publish.
    pub event: Event,
}

impl View for Posting {
    type V = PostingView;

    open spec fn view(&self) -> PostingView {
        PostingView {
            loan_id: self.loan_id as int,
            loan: self.loan@,
            stats: self.stats@,
            transfer: self.transfer@,
            event: self.event@,
        }
    }
}

/// What an optional configuration stands for in contracts.
pub open spec fn config_view(config: Option<&Config>) -> Option<ConfigView> {
    match config {
        Some(c) => Some(c@),
        None => None,
    }
}

/// What an optional loan record stands for in contracts.
pub open spec fn loan_view(loan: Option<&LoanRequest>) -> Option<LoanView> {
    match loan {
        Some(l) => Some(l@),
        None => None,
    }
}

/// Whether `outcome` is what `expected` says: the same refusal, or a
/// question that stands for the expected one.
pub open spec fn asks(
    outcome: Result<BalanceQuery, Error>,
    expected: Result<BalanceQueryView, Error>,
) -> bool {
    match expected {
        Ok(query) => outcome is Ok && outcome->Ok_0@ == query,
        Err(e) => outcome is Err && outcome->Err_0 == e,
    }
}

/// Whether `outcome` is what `expected` says: the same refusal, or a posting
/// that stands for the expected one.
pub open spec fn posts(outcome: Result<Posting, Error>, expected: Result<PostingView, Error>) -> bool {
    match expected {
        Ok(posting) => outcome is Ok && outcome->Ok_0@ == posting,
        Err(e) => outcome is Err && outcome->Err_0 == e,
    }
}

impl Role {
    /// Who pays when `who` asks for credit in this role: a lender pays
    /// itself, a borrower is paid by the pool.
    pub open spec fn spec_source(self, who: Seq<u8>, config: ConfigView) -> Seq<u8> {
        match self {
            Role::Lender => who,
            Role::Borrower => config.treasury,
        }
    }

    /// Who is paid when `who` asks for credit in this role: a lender pays
    /// the pool, a borrower is paid itself.
    pub open spec fn spec_destination(self, who: Seq<u8>, config: ConfigView) -> Seq<u8> {
        match self {
            Role::Lender => config.treasury,
            Role::Borrower => who,
        }
    }

    /// The kind of event that announces credit issued in this role.
    pub open spec fn spec_event_kind(self) -> EventKind {
        match self {
            Role::Lender => EventKind::Lend,
            Role::Borrower => EventKind::Borrow,
        }
    }

    /// The statistics of an identity after `amount` was issued to it in
    /// this role.
    pub open spec fn credited(self, stats: StatsView, amount: int) -> StatsView {
        match self {
            Role::Lender => stats.after_lending(amount),
            Role::Borrower => stats.after_borrowing(amount),
        }
    }

    /// Whether the figures of `stats` can take one more credit unit in this
    /// role without leaving their machine range.
    pub open spec fn has_room(self, stats: UserStats) -> bool {
        &&& stats.active_loans < u32::MAX
        &&& match self {
            Role::Lender => stats.total_lent + CREDIT_UNIT <= i128::MAX,
            Role::Borrower => stats.total_borrowed + CREDIT_UNIT <= i128::MAX,
        }
    }

    /// Whether a ledger with the given counter can issue one more loan in
    /// this role to an identity with the given statistics: whether the
    /// counter and the figures of `stats` stay within their machine range.
    pub fn can_issue(self, loan_counter: u32, stats: UserStats) -> (room: bool)
        ensures
            room == (loan_counter < u32::MAX && self.has_room(stats)),
    {
        loan_counter < u32::MAX && stats.active_loans < u32::MAX && match self {
            Role::Lender => stats.total_lent <= i128::MAX - CREDIT_UNIT,
            Role::Borrower => stats.total_borrowed <= i128::MAX - CREDIT_UNIT,
        }
    }

    /// Who pays when `who` asks for credit in this role.
    pub fn source<'a>(self, who: &'a Identity, config: &'a Config) -> (payer: &'a Identity)
        ensures
            payer@ == self.spec_source(who@, config@),
    {
        match self {
            Role::Lender => who,
            Role::Borrower => &config.treasury,
        }
    }

    /// Who is paid when `who` asks for credit in this role.
    pub fn destination<'a>(self, who: &'a Identity, config: &'a Config) -> (payee: &'a Identity)
        ensures
            payee@ == self.spec_destination(who@, config@),
    {
        match self {
            Role::Lender => &config.treasury,
            Role::Borrower => who,
        }
    }

    /// The kind of event that announces credit issued in this role.
    pub fn event_kind(self) -> (kind: EventKind)
        ensures
            kind == self.spec_event_kind(),
    {
        match self {
            Role::Lender => EventKind::Lend,
            Role::Borrower => EventKind::Borrow,
        }
    }
}

/// What configuring a ledger yields: a refusal when it is configured
/// already, else the configuration to keep.
pub open spec fn spec_initialize(
    initialized: bool,
    treasury: Seq<u8>,
    native_token: Seq<u8>,
) -> Result<ConfigView, Error> {
    if initialized {
        Err(Error::AlreadyInitialized)
    } else {
        Ok(ConfigView { treasury, native_token })
    }
}

/// Decides on a request to configure the ledger with `treasury` as its pool
/// and `native_token` as its credit asset. `initialized` says whether a
/// configuration is on record already. The host has authenticated
/// `treasury`, and on success starts the loan counter at zero.
pub fn initialize(initialized: bool, treasury: Identity, native_token: Identity) -> (outcome: Result<
    Config,
    Error,
>)
    ensures
        match spec_initialize(initialized, treasury@, native_token@) {
            Ok(config) => outcome is Ok && outcome->Ok_0@ == config,
            Err(e) => outcome is Err && outcome->Err_0 == e,
        },
{
    if initialized {
        return Err(Error::AlreadyInitialized);
    }
    Ok(Config { treasury, native_token })
}

/// What has to be asked to learn the balance of the pool: the configured
/// token, about the configured pool. Without a configuration there is
/// nothing to ask, and the request is refused as not initialized.
pub open spec fn spec_treasury_query(config: Option<ConfigView>) -> Result<BalanceQueryView, Error> {
    match config {
        Some(cfg) => Ok(BalanceQueryView { token: cfg.native_token, holder: cfg.treasury }),
        None => Err(Error::NotInitialized),
    }
}

/// Tells the host what to ask to learn the balance of the pool, or refuses
/// on a ledger that is not initialized.
pub fn treasury_query<'a>(config: Option<&'a Config>) -> (query: Result<BalanceQuery<'a>, Error>)
    ensures
        asks(query, spec_treasury_query(config_view(config))),
{
    match config {
        Some(cfg) => Ok(BalanceQuery { token: &cfg.native_token, holder: &cfg.treasury }),
        None => Err(Error::NotInitialized),
    }
}

/// What has to be asked before a request of `who` for credit in `role` can
/// be decided: the configured token, about the paying side. Without a
/// configuration the request is refused as not initialized.
pub open spec fn spec_credit_query(role: Role, who: Seq<u8>, config: Option<ConfigView>) -> Result<
    BalanceQueryView,
    Error,
> {
    match config {
        Some(cfg) => Ok(
            BalanceQueryView { token: cfg.native_token, holder: role.spec_source(who, cfg) },
        ),
        None => Err(Error::NotInitialized),
    }
}

/// Tells the host what to ask the token before it asks [`issue_credit`] to
/// decide on a request of `who` for credit in `role`; or refuses the
/// request where no balance is needed to refuse it.
pub fn credit_query<'a>(role: Role, who: &'a Identity, config: Option<&'a Config>) -> (query:
    Result<BalanceQuery<'a>, Error>)
    ensures
        asks(query, spec_credit_query(role, who@, config_view(config))),
{
    match config {
        Some(cfg) => Ok(BalanceQuery { token: &cfg.native_token, holder: role.source(who, cfg) }),
        None => Err(Error::NotInitialized),
    }
}

/// What a request of `who` for credit in `role` leads to, on a ledger with
/// the given configuration and loan counter, where `stats` are the
/// statistics of `who` and `source_balance` is what the paying side holds.
///
/// Without a configuration the request is refused as not initialized. With
/// less than one credit unit on the paying side it is refused for
/// insufficient balance. Otherwise one credit unit moves from the paying to
/// the receiving side, the loan gets the next id and stands on the record of
/// `who`, active and stamped `now`, and the statistics of `who` grow by one
/// credit unit and one active loan.
pub open spec fn spec_issue_credit(
    role: Role,
    who: Seq<u8>,
    config: Option<ConfigView>,
    loan_counter: int,
    stats: StatsView,
    source_balance: int,
    now: u64,
) -> Result<PostingView, Error> {
    match config {
        None => Err(Error::NotInitialized),
        Some(cfg) => if source_balance < CREDIT_UNIT {
            Err(Error::InsufficientBalance)
        } else {
            Ok(
                PostingView {
                    loan_id: loan_counter + 1,
                    loan: LoanView::open(who, CREDIT_UNIT as int, now),
                    stats: role.credited(stats, CREDIT_UNIT as int),
                    transfer: TransferView {
                        from: role.spec_source(who, cfg),
                        to: role.spec_destination(who, cfg),
                        amount: CREDIT_UNIT as int,
                    },
                    event: EventView {
                        kind: role.spec_event_kind(),
                        who,
                        amount: CREDIT_UNIT as int,
                    },
                },
            )
        },
    }
}

/// Decides on a request of `who` for one credit unit in `role`.
///
/// `config` and `loan_counter` are the ledger's, `stats` the statistics on
/// record for `who` (those of [`UserStats::zero`] where there are none),
/// `source_balance` the token's answer to [`credit_query`], and `now` the
/// host's time. The host has authenticated `who`.
///
/// A request that is granted needs room for one more loan: in the counter
/// and in the figures of `stats`.
pub fn issue_credit(
    role: Role,
    who: &Identity,
    config: Option<&Config>,
    loan_counter: u32,
    stats: UserStats,
    source_balance: i128,
    now: u64,
) -> (outcome: Result<Posting, Error>)
    requires
        spec_issue_credit(
            role,
            who@,
            config_view(config),
            loan_counter as int,
            stats@,
            source_balance as int,
            now,
        ) is Ok ==> loan_counter < u32::MAX && role.has_room(stats),
    ensures
        posts(
            outcome,
            spec_issue_credit(
                role,
                who@,
                config_view(config),
                loan_counter as int,
                stats@,
                source_balance as int,
                now,
            ),
        ),
{
    let cfg: &Config = match config {
        Some(cfg) => cfg,
        None => {
            return Err(Error::NotInitialized);
        },
    };
    if source_balance < CREDIT_UNIT {
        return Err(Error::InsufficientBalance);
    }
    let loan_id: u32 = loan_counter + 1;
    let new_stats: UserStats = match role {
        Role::Lender => stats.after_lending(CREDIT_UNIT),
        Role::Borrower => stats.after_borrowing(CREDIT_UNIT),
    };
    Ok(
        Posting {
            loan_id,
            loan: LoanRequest::open(who.clone(), CREDIT_UNIT, now),
            stats: new_stats,
            transfer: Transfer {
                from: role.source(who, cfg).clone(),
                to: role.destination(who, cfg).clone(),
                amount: CREDIT_UNIT,
            },
            event: Event { kind: role.event_kind(), who: who.clone(), amount: CREDIT_UNIT },
        },
    )
}

/// Decides as [`issue_credit`] does wherever a decision is possible. The
/// answer is `None` where the request would be granted but the counter or
/// the figures of `stats` have no room for one more loan.
pub fn try_issue_credit(
    role: Role,
    who: &Identity,
    config: Option<&Config>,
    loan_counter: u32,
    stats: UserStats,
    source_balance: i128,
    now: u64,
) -> (outcome: Option<Result<Posting, Error>>)
    ensures
        ({
            let expected = spec_issue_credit(
                role,
                who@,
                config_view(config),
                loan_counter as int,
                stats@,
                source_balance as int,
                now,
            );
            let room = loan_counter < u32::MAX && role.has_room(stats);
            match outcome {
                Some(decided) => posts(decided, expected) && (expected is Ok ==> room),
                None => expected is Ok && !room,
            }
        }),
{
    if config.is_some() && source_balance >= CREDIT_UNIT && !role.can_issue(loan_counter, stats) {
        None
    } else {
        Some(issue_credit(role, who, config, loan_counter, stats, source_balance, now))
    }
}

/// What has to be asked before a request of `who` to settle a loan can be
/// decided, where `loan` is the record under the loan's id, if there is
/// one: the configured token, about `who`.
///
/// The request is refused without asking, in this order: without a
/// configuration, as not initialized; without a record, as loan not found;
/// for a loan settled before, as already paid; for a loan on another
/// borrower's record, as unauthorized.
pub open spec fn spec_settlement_query(
    who: Seq<u8>,
    config: Option<ConfigView>,
    loan: Option<LoanView>,
) -> Result<BalanceQueryView, Error> {
    if config is None {
        Err(Error::NotInitialized)
    } else if loan is None {
        Err(Error::LoanNotFound)
    } else if !loan->Some_0.is_active {
        Err(Error::LoanAlreadyPaid)
    } else if loan->Some_0.borrower != who {
        Err(Error::Unauthorized)
    } else {
        Ok(BalanceQueryView { token: config->Some_0.native_token, holder: who })
    }
}

/// Tells the host what to ask the token before it asks [`settle_loan`] to
/// decide on a request of `who` to settle a loan; or refuses the request
/// where no balance is needed to refuse it.
pub fn settlement_query<'a>(
    who: &'a Identity,
    config: Option<&'a Config>,
    loan: Option<&LoanRequest>,
) -> (query: Result<BalanceQuery<'a>, Error>)
    ensures
        asks(query, spec_settlement_query(who@, config_view(config), loan_view(loan))),
{
    let cfg: &Config = match config {
        Some(cfg) => cfg,
        None => {
            return Err(Error::NotInitialized);
        },
    };
    let record: &LoanRequest = match loan {
        Some(record) => record,
        None => {
            return Err(Error::LoanNotFound);
        },
    };
    if !record.is_active {
        return Err(Error::LoanAlreadyPaid);
    }
    if !record.borrower.same_as(who) {
        return Err(Error::Unauthorized);
    }
    Ok(BalanceQuery { token: &cfg.native_token, holder: who })
}

/// What a request of `who` to settle the loan `loan_id` leads to, where
/// `loan` is the record under that id, if there is one, `stats` are the
/// statistics of `who` and `balance` is what `who` holds.
///
/// The request is refused where [`spec_settlement_query`] refuses it, and else
/// for insufficient balance where `who` holds less than the loan's amount.
/// Otherwise the amount moves from `who` to the pool, the loan is settled,
/// and `who` has one active loan fewer.
pub open spec fn spec_settle_loan(
    who: Seq<u8>,
    loan_id: int,
    config: Option<ConfigView>,
    loan: Option<LoanView>,
    stats: StatsView,
    balance: int,
) -> Result<PostingView, Error> {
    match spec_settlement_query(who, config, loan) {
        Err(e) => Err(e),
        Ok(_) => if balance < loan->Some_0.amount {
            Err(Error::InsufficientBalance)
        } else {
            Ok(
                PostingView {
                    loan_id,
                    loan: loan->Some_0.settled(),
                    stats: stats.after_settling(),
                    transfer: TransferView {
                        from: who,
                        to: config->Some_0.treasury,
                        amount: loan->Some_0.amount,
                    },
                    event: EventView { kind: EventKind::Repay, who, amount: loan->Some_0.amount },
                },
            )
        },
    }
}

/// Decides on a request of `who` to settle the loan `loan_id`.
///
/// `config` is the ledger's, `loan` the record kept under `loan_id`, if any,
/// `stats` the statistics on record for `who` (those of
/// [`UserStats::zero`] where there are none), and `balance` the token's
/// answer to [`settlement_query`]. The host has authenticated `who`.
pub fn settle_loan(
    who: &Identity,
    loan_id: u32,
    config: Option<&Config>,
    loan: Option<&LoanRequest>,
    stats: UserStats,
    balance: i128,
) -> (outcome: Result<Posting, Error>)
    ensures
        posts(
            outcome,
            spec_settle_loan(
                who@,
                loan_id as int,
                config_view(config),
                loan_view(loan),
                stats@,
                balance as int,
            ),
        ),
{
    match settlement_query(who, config, loan) {
        Ok(_) => {},
        Err(e) => {
            return Err(e);
        },
    }
    let cfg: &Config = config.unwrap();
    let record: &LoanRequest = loan.unwrap();
    if balance < record.amount {
        return Err(Error::InsufficientBalance);
    }
    Ok(
        Posting {
            loan_id,
            loan: record.settled(),
            stats: stats.after_settling(),
            transfer: Transfer {
                from: who.clone(),
                to: cfg.treasury.clone(),
                amount: record.amount,
            },
            event: Event { kind: EventKind::Repay, who: who.clone(), amount: record.amount },
        },
    )
}

} // verus!
