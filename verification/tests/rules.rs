use microlend::rules::{
    credit_query, initialize, issue_credit, settle_loan, settlement_query, treasury_query,
    try_issue_credit,
};
use microlend::{
    Config, Error, EventKind, Identity, LoanRequest, Role, UserStats, CREDIT_UNIT,
};

fn id(name: &str) -> Identity {
    Identity::new(name.as_bytes().to_vec())
}

fn config() -> Config {
    Config { treasury: id("pool"), native_token: id("asset") }
}

fn stats(total_lent: i128, total_borrowed: i128, active_loans: u32) -> UserStats {
    UserStats { total_lent, total_borrowed, active_loans }
}

#[test]
fn credit_unit_is_ten_million() {
    assert_eq!(CREDIT_UNIT, 10_000_000);
    assert_eq!(CREDIT_UNIT, 10i128.pow(7));
}

#[test]
fn error_codes() {
    assert_eq!(Error::NotInitialized.code(), 1);
    assert_eq!(Error::AlreadyInitialized.code(), 2);
    assert_eq!(Error::InsufficientBalance.code(), 3);
    assert_eq!(Error::LoanNotFound.code(), 4);
    assert_eq!(Error::LoanAlreadyPaid.code(), 5);
    assert_eq!(Error::Unauthorized.code(), 6);
}

#[test]
fn event_topics() {
    assert_eq!(EventKind::Lend.topic(), "lend");
    assert_eq!(EventKind::Borrow.topic(), "borrow");
    assert_eq!(EventKind::Repay.topic(), "repay");
    assert_eq!(Role::Lender.event_kind(), EventKind::Lend);
    assert_eq!(Role::Borrower.event_kind(), EventKind::Borrow);
}

#[test]
fn identities_compare_by_their_bytes() {
    let a = Identity::new(vec![1, 2, 3]);
    let b = Identity::new(vec![1, 2, 3]);
    let c = Identity::new(vec![1, 2, 4]);
    let d = Identity::new(vec![1, 2]);
    let e = Identity::new(vec![]);
    assert!(a.same_as(&b));
    assert!(!a.same_as(&c));
    assert!(!a.same_as(&d));
    assert!(!d.same_as(&a));
    assert!(!a.same_as(&e));
    assert!(e.same_as(&Identity::new(Vec::new())));
    assert_eq!(a, b);
    assert_ne!(a, c);
    assert_eq!(a.clone(), a);
    assert_eq!(a.as_bytes(), &vec![1u8, 2, 3]);
    assert_eq!(c.clone().as_bytes(), &vec![1u8, 2, 4]);
}

#[test]
fn roles_name_payer_and_payee() {
    let cfg = config();
    let u = id("u");
    assert_eq!(Role::Lender.source(&u, &cfg), &u);
    assert_eq!(Role::Lender.destination(&u, &cfg), &id("pool"));
    assert_eq!(Role::Borrower.source(&u, &cfg), &id("pool"));
    assert_eq!(Role::Borrower.destination(&u, &cfg), &u);
}

#[test]
fn initialize_decides_on_the_flag() {
    let granted = initialize(false, id("pool"), id("asset")).unwrap();
    assert_eq!(granted.treasury, id("pool"));
    assert_eq!(granted.native_token, id("asset"));
    assert_eq!(initialize(true, id("pool"), id("asset")).unwrap_err(), Error::AlreadyInitialized);
    let copy = granted.clone();
    assert_eq!(copy.treasury, id("pool"));
    assert_eq!(copy.native_token, id("asset"));
}

#[test]
fn issue_credit_to_a_lender() {
    let cfg = config();
    let u = id("u");
    let posting =
        issue_credit(Role::Lender, &u, Some(&cfg), 41, stats(30_000_000, 5, 2), 10_000_000, 77)
            .unwrap();
    assert_eq!(posting.loan_id, 42);
    assert_eq!(
        posting.loan,
        LoanRequest { borrower: id("u"), amount: 10_000_000, is_active: true, timestamp: 77 }
    );
    assert_eq!(posting.stats, stats(40_000_000, 5, 3));
    assert_eq!(posting.transfer.from, u);
    assert_eq!(posting.transfer.to, id("pool"));
    assert_eq!(posting.transfer.amount, 10_000_000);
    assert_eq!(posting.event.kind, EventKind::Lend);
    assert_eq!(posting.event.who, u);
    assert_eq!(posting.event.amount, 10_000_000);
}

#[test]
fn issue_credit_to_a_borrower() {
    let cfg = config();
    let u = id("u");
    let posting =
        issue_credit(Role::Borrower, &u, Some(&cfg), 0, stats(0, 0, 0), i128::MAX, u64::MAX)
            .unwrap();
    assert_eq!(posting.loan_id, 1);
    assert_eq!(
        posting.loan,
        LoanRequest { borrower: id("u"), amount: 10_000_000, is_active: true, timestamp: u64::MAX }
    );
    assert_eq!(posting.stats, stats(0, 10_000_000, 1));
    assert_eq!(posting.transfer.from, id("pool"));
    assert_eq!(posting.transfer.to, u);
    assert_eq!(posting.transfer.amount, 10_000_000);
    assert_eq!(posting.event.kind, EventKind::Borrow);
    assert_eq!(posting.event.who, u);
    assert_eq!(posting.event.amount, 10_000_000);
}

#[test]
fn issue_credit_refusals() {
    let cfg = config();
    let u = id("u");
    let zero = stats(0, 0, 0);
    assert_eq!(
        issue_credit(Role::Lender, &u, None, 0, zero, 10_000_000, 1).unwrap_err(),
        Error::NotInitialized
    );
    assert_eq!(
        issue_credit(Role::Borrower, &u, None, 0, zero, 0, 1).unwrap_err(),
        Error::NotInitialized
    );
    assert_eq!(
        issue_credit(Role::Lender, &u, Some(&cfg), 0, zero, 9_999_999, 1).unwrap_err(),
        Error::InsufficientBalance
    );
    assert_eq!(
        issue_credit(Role::Borrower, &u, Some(&cfg), 0, zero, i128::MIN, 1).unwrap_err(),
        Error::InsufficientBalance
    );
    // a refusal needs no room
    assert_eq!(
        issue_credit(
            Role::Lender,
            &u,
            Some(&cfg),
            u32::MAX,
            stats(i128::MAX, i128::MAX, u32::MAX),
            0,
            1
        )
        .unwrap_err(),
        Error::InsufficientBalance
    );
}

#[test]
fn room_for_one_more_loan() {
    assert!(Role::Lender.can_issue(0, stats(0, 0, 0)));
    assert!(Role::Lender.can_issue(u32::MAX - 1, stats(i128::MAX - CREDIT_UNIT, 0, u32::MAX - 1)));
    assert!(!Role::Lender.can_issue(u32::MAX, stats(0, 0, 0)));
    assert!(!Role::Lender.can_issue(0, stats(0, 0, u32::MAX)));
    assert!(!Role::Lender.can_issue(0, stats(i128::MAX - CREDIT_UNIT + 1, 0, 0)));
    assert!(Role::Lender.can_issue(0, stats(0, i128::MAX, 0)));
    assert!(!Role::Borrower.can_issue(0, stats(0, i128::MAX, 0)));
    assert!(Role::Borrower.can_issue(0, stats(i128::MAX, i128::MAX - CREDIT_UNIT, 0)));
}

#[test]
fn settle_loan_of_the_borrower() {
    let cfg = config();
    let u = id("u");
    let loan = LoanRequest { borrower: id("u"), amount: 10_000_000, is_active: true, timestamp: 9 };
    let posting =
        settle_loan(&u, 7, Some(&cfg), Some(&loan), stats(10_000_000, 20_000_000, 3), 10_000_000)
            .unwrap();
    assert_eq!(posting.loan_id, 7);
    assert_eq!(
        posting.loan,
        LoanRequest { borrower: id("u"), amount: 10_000_000, is_active: false, timestamp: 9 }
    );
    assert_eq!(posting.stats, stats(10_000_000, 20_000_000, 2));
    assert_eq!(posting.transfer.from, u);
    assert_eq!(posting.transfer.to, id("pool"));
    assert_eq!(posting.transfer.amount, 10_000_000);
    assert_eq!(posting.event.kind, EventKind::Repay);
    assert_eq!(posting.event.who, u);
    assert_eq!(posting.event.amount, 10_000_000);
}

#[test]
fn settle_loan_goes_by_the_recorded_amount() {
    let cfg = config();
    let u = id("u");
    let loan = LoanRequest { borrower: id("u"), amount: 250, is_active: true, timestamp: 9 };
    assert_eq!(
        settle_loan(&u, 1, Some(&cfg), Some(&loan), stats(0, 0, 1), 249).unwrap_err(),
        Error::InsufficientBalance
    );
    let posting = settle_loan(&u, 1, Some(&cfg), Some(&loan), stats(0, 0, 1), 250).unwrap();
    assert_eq!(posting.transfer.amount, 250);
    assert_eq!(posting.event.amount, 250);
    assert_eq!(posting.loan.amount, 250);
}

#[test]
fn settle_loan_never_counts_below_zero() {
    let cfg = config();
    let u = id("u");
    let loan = LoanRequest { borrower: id("u"), amount: 10_000_000, is_active: true, timestamp: 9 };
    let posting = settle_loan(&u, 1, Some(&cfg), Some(&loan), stats(7, 8, 0), 10_000_000).unwrap();
    assert_eq!(posting.stats, stats(7, 8, 0));
}

#[test]
fn settle_loan_refusals() {
    let cfg = config();
    let u = id("u");
    let active = LoanRequest { borrower: id("u"), amount: 10_000_000, is_active: true, timestamp: 9 };
    let paid = LoanRequest { borrower: id("u"), amount: 10_000_000, is_active: false, timestamp: 9 };
    let zero = stats(0, 0, 0);
    assert_eq!(
        settle_loan(&u, 1, None, Some(&active), zero, 10_000_000).unwrap_err(),
        Error::NotInitialized
    );
    assert_eq!(settle_loan(&u, 1, None, None, zero, 0).unwrap_err(), Error::NotInitialized);
    assert_eq!(
        settle_loan(&u, 1, Some(&cfg), None, zero, 10_000_000).unwrap_err(),
        Error::LoanNotFound
    );
    assert_eq!(
        settle_loan(&u, 1, Some(&cfg), Some(&paid), zero, 10_000_000).unwrap_err(),
        Error::LoanAlreadyPaid
    );
    assert_eq!(
        settle_loan(&id("v"), 1, Some(&cfg), Some(&paid), zero, 0).unwrap_err(),
        Error::LoanAlreadyPaid
    );
    assert_eq!(
        settle_loan(&id("v"), 1, Some(&cfg), Some(&active), zero, 10_000_000).unwrap_err(),
        Error::Unauthorized
    );
    assert_eq!(
        settle_loan(&id("v"), 1, Some(&cfg), Some(&active), zero, 0).unwrap_err(),
        Error::Unauthorized
    );
    assert_eq!(
        settle_loan(&u, 1, Some(&cfg), Some(&active), zero, 9_999_999).unwrap_err(),
        Error::InsufficientBalance
    );
}

#[test]
fn statistics_arithmetic() {
    let start = UserStats::zero();
    assert_eq!(start, stats(0, 0, 0));
    assert_eq!(start.after_lending(10_000_000), stats(10_000_000, 0, 1));
    assert_eq!(start.after_borrowing(10_000_000), stats(0, 10_000_000, 1));
    assert_eq!(
        stats(5, 6, 7).after_lending(10).after_borrowing(20).after_settling(),
        stats(15, 26, 8)
    );
    assert_eq!(stats(1, 2, 1).after_settling(), stats(1, 2, 0));
    assert_eq!(stats(1, 2, 0).after_settling(), stats(1, 2, 0));
}

#[test]
fn loan_records() {
    let loan = LoanRequest::open(id("u"), 10_000_000, 33);
    assert_eq!(
        loan,
        LoanRequest { borrower: id("u"), amount: 10_000_000, is_active: true, timestamp: 33 }
    );
    let settled = loan.settled();
    assert_eq!(
        settled,
        LoanRequest { borrower: id("u"), amount: 10_000_000, is_active: false, timestamp: 33 }
    );
    assert_eq!(settled.settled(), settled);
    assert_eq!(loan.clone(), loan);
    assert_ne!(loan, settled);
    assert_ne!(loan, LoanRequest::open(id("v"), 10_000_000, 33));
    assert_ne!(loan, LoanRequest::open(id("u"), 10_000_001, 33));
    assert_ne!(loan, LoanRequest::open(id("u"), 10_000_000, 34));
}

#[test]
fn treasury_query_asks_the_token_about_the_pool() {
    let cfg = config();
    let query = treasury_query(Some(&cfg)).unwrap();
    assert_eq!(query.token, &id("asset"));
    assert_eq!(query.holder, &id("pool"));
    assert_eq!(treasury_query(None).unwrap_err(), Error::NotInitialized);
}

#[test]
fn credit_query_asks_about_the_payer() {
    let cfg = config();
    let u = id("u");
    let lend = credit_query(Role::Lender, &u, Some(&cfg)).unwrap();
    assert_eq!(lend.token, &id("asset"));
    assert_eq!(lend.holder, &id("u"));
    let borrow = credit_query(Role::Borrower, &u, Some(&cfg)).unwrap();
    assert_eq!(borrow.token, &id("asset"));
    assert_eq!(borrow.holder, &id("pool"));
    assert_eq!(credit_query(Role::Lender, &u, None).unwrap_err(), Error::NotInitialized);
    assert_eq!(credit_query(Role::Borrower, &u, None).unwrap_err(), Error::NotInitialized);
}

#[test]
fn settlement_query_decides_what_needs_no_balance() {
    let cfg = config();
    let u = id("u");
    let v = id("v");
    let active = LoanRequest { borrower: id("u"), amount: 10_000_000, is_active: true, timestamp: 9 };
    let paid = LoanRequest { borrower: id("u"), amount: 10_000_000, is_active: false, timestamp: 9 };
    let query = settlement_query(&u, Some(&cfg), Some(&active)).unwrap();
    assert_eq!(query.token, &id("asset"));
    assert_eq!(query.holder, &id("u"));
    assert_eq!(settlement_query(&u, None, Some(&active)).unwrap_err(), Error::NotInitialized);
    assert_eq!(settlement_query(&u, None, None).unwrap_err(), Error::NotInitialized);
    assert_eq!(settlement_query(&u, Some(&cfg), None).unwrap_err(), Error::LoanNotFound);
    assert_eq!(settlement_query(&u, Some(&cfg), Some(&paid)).unwrap_err(), Error::LoanAlreadyPaid);
    assert_eq!(settlement_query(&v, Some(&cfg), Some(&paid)).unwrap_err(), Error::LoanAlreadyPaid);
    assert_eq!(settlement_query(&v, Some(&cfg), Some(&active)).unwrap_err(), Error::Unauthorized);
}

#[test]
fn try_issue_credit_decides_where_there_is_room() {
    let cfg = config();
    let u = id("u");
    let posting =
        try_issue_credit(Role::Lender, &u, Some(&cfg), 3, stats(0, 0, 0), 10_000_000, 8)
            .unwrap()
            .unwrap();
    assert_eq!(posting.loan_id, 4);
    assert_eq!(posting.stats, stats(10_000_000, 0, 1));
    assert_eq!(posting.loan.timestamp, 8);
    assert_eq!(
        try_issue_credit(Role::Lender, &u, None, 3, stats(0, 0, 0), 10_000_000, 8)
            .unwrap()
            .unwrap_err(),
        Error::NotInitialized
    );
    assert_eq!(
        try_issue_credit(Role::Borrower, &u, Some(&cfg), 3, stats(0, 0, 0), 9_999_999, 8)
            .unwrap()
            .unwrap_err(),
        Error::InsufficientBalance
    );
}

#[test]
fn try_issue_credit_gives_no_answer_without_room() {
    let cfg = config();
    let u = id("u");
    assert!(try_issue_credit(Role::Lender, &u, Some(&cfg), u32::MAX, stats(0, 0, 0), 10_000_000, 8)
        .is_none());
    assert!(try_issue_credit(Role::Lender, &u, Some(&cfg), 0, stats(0, 0, u32::MAX), 10_000_000, 8)
        .is_none());
    assert!(try_issue_credit(Role::Lender, &u, Some(&cfg), 0, stats(i128::MAX, 0, 0), 10_000_000, 8)
        .is_none());
    assert!(try_issue_credit(
        Role::Borrower,
        &u,
        Some(&cfg),
        0,
        stats(0, i128::MAX, 0),
        10_000_000,
        8
    )
    .is_none());
    // the other total does not matter
    assert!(try_issue_credit(
        Role::Borrower,
        &u,
        Some(&cfg),
        0,
        stats(i128::MAX, 0, 0),
        10_000_000,
        8
    )
    .unwrap()
    .is_ok());
    // a refusal is an answer
    assert_eq!(
        try_issue_credit(Role::Lender, &u, Some(&cfg), u32::MAX, stats(0, 0, 0), 1, 8)
            .unwrap()
            .unwrap_err(),
        Error::InsufficientBalance
    );
    assert_eq!(
        try_issue_credit(Role::Lender, &u, None, u32::MAX, stats(0, 0, u32::MAX), 10_000_000, 8)
            .unwrap()
            .unwrap_err(),
        Error::NotInitialized
    );
}
