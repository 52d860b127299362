use risk_core::account::{AccountState, LimitError, Mutation};
use risk_core::decision::{
    after_commit, check_and_apply, evaluate_order, plan_order, AttemptStep, OrderPlan,
    MAX_UPDATE_ATTEMPTS,
};
use risk_core::order::{OrderRequest, RejectReason, RiskDecision, Side};
use risk_core::store::{setup_initial_account_state, AccountStore, OnboardError, UpdateError};

fn order(order_id: u128, price: u64, size: u32, side: Side) -> OrderRequest {
    OrderRequest { order_id, account_id: 101, instrument_id: 7, price, size, side }
}

/// Account 101 onboarded at zero exposure, then brought to 50,000.00 by an
/// approved order in another instrument (amounts in cents); version 1.
fn demo_store() -> AccountStore {
    let mut store = AccountStore::new();
    setup_initial_account_state(&mut store).unwrap();
    let a = account(&store);
    assert_eq!((a.current_exposure, a.version), (0, 0));
    assert!(a.positions.is_empty());
    let opening = OrderRequest { order_id: 0, account_id: 101, instrument_id: 9, price: 50_000, size: 100, side: Side::Buy };
    assert_eq!(check_and_apply(&mut store, &opening), RiskDecision::Approved);
    assert_eq!(account(&store).current_exposure, 5_000_000);
    store
}

fn account(store: &AccountStore) -> AccountState {
    store.read(101).expect("account 101 is stored")
}

#[test]
fn demo_account_scenario() {
    // Limits 100,000.00 and 100; exposure 50,000.00 (amounts in cents).
    let mut store = demo_store();
    let too_big = order(1, 60150_00, 150, Side::Buy);
    assert_eq!(
        check_and_apply(&mut store, &too_big),
        RiskDecision::Rejected(RejectReason::OrderSizeExceedsLimit { size: 150, max_size: 100 })
    );
    assert_eq!(account(&store).current_exposure, 5_000_000);
    // 601.50 x 80 = 48,120.00; exposure becomes 98,120.00.
    let fits = order(2, 601_50, 80, Side::Buy);
    assert_eq!(check_and_apply(&mut store, &fits), RiskDecision::Approved);
    let a = account(&store);
    assert_eq!(a.current_exposure, 9_812_000);
    assert_eq!(a.position(7), 80);
    assert_eq!(a.version, 2);
}

#[test]
fn approval_adds_exactly_the_notional() {
    let mut store = demo_store();
    let before = account(&store).current_exposure;
    let o = order(3, 1_234, 17, Side::Buy);
    assert_eq!(check_and_apply(&mut store, &o), RiskDecision::Approved);
    assert_eq!(account(&store).current_exposure, before + 1_234 * 17);
}

#[test]
fn approval_at_exactly_the_limit() {
    let mut store = demo_store();
    // 5,000,000 more reaches the limit of 10,000,000 exactly.
    let o = order(4, 50_000, 100, Side::Buy);
    assert_eq!(check_and_apply(&mut store, &o), RiskDecision::Approved);
    assert_eq!(account(&store).current_exposure, 10_000_000);
}

#[test]
fn exposure_breach_leaves_state_unchanged() {
    let mut store = demo_store();
    let o = order(5, 50_001, 100, Side::Buy);
    assert_eq!(
        check_and_apply(&mut store, &o),
        RiskDecision::Rejected(RejectReason::ExposureLimitBreach {
            attempted: 10_000_100,
            max_exposure: 10_000_000
        })
    );
    let a = account(&store);
    assert_eq!(a.current_exposure, 5_000_000);
    assert_eq!(a.position(7), 0);
    assert_eq!(a.version, 1);
}

#[test]
fn sell_counts_as_gross_exposure_and_shortens_position() {
    let mut store = demo_store();
    let o = order(6, 1_000, 30, Side::Sell);
    assert_eq!(check_and_apply(&mut store, &o), RiskDecision::Approved);
    let a = account(&store);
    assert_eq!(a.current_exposure, 5_030_000);
    assert_eq!(a.position(7), -30);
}

#[test]
fn unknown_account_is_rejected() {
    let mut store = demo_store();
    let mut o = order(7, 100, 1, Side::Buy);
    o.account_id = 999;
    assert_eq!(
        check_and_apply(&mut store, &o),
        RiskDecision::Rejected(RejectReason::AccountNotFound)
    );
}

#[test]
fn position_overflow_is_rejected() {
    let mut a = AccountState::open(5, 1_000_000, 1_000).unwrap();
    a.positions.insert(7, i64::MAX - 10);
    let o = OrderRequest { order_id: 8, account_id: 5, instrument_id: 7, price: 1, size: 11, side: Side::Buy };
    assert_eq!(
        evaluate_order(&a, &o),
        Err(RejectReason::PositionOverflow { instrument_id: 7 })
    );
    let o = OrderRequest { side: Side::Sell, ..o };
    assert_eq!(
        evaluate_order(&a, &o),
        Ok(Mutation::Fill { exposure: 11, instrument_id: 7, quantity: i64::MAX - 21 })
    );
}

#[test]
fn repeated_orders_approve_a_prefix() {
    let mut store = demo_store();
    // Each copy adds 2,000,000; room is 5,000,000, so two copies fit.
    let o = order(9, 20_000, 100, Side::Buy);
    let decisions: Vec<RiskDecision> = (0..5).map(|_| check_and_apply(&mut store, &o)).collect();
    assert_eq!(&decisions[..2], &[RiskDecision::Approved, RiskDecision::Approved]);
    for d in &decisions[2..] {
        assert!(matches!(d, RiskDecision::Rejected(RejectReason::ExposureLimitBreach { .. })));
    }
    let a = account(&store);
    assert_eq!(a.current_exposure, 9_000_000);
    assert!(a.current_exposure <= a.current_max_exposure);
}

#[test]
fn stale_version_is_a_conflict() {
    let mut store = demo_store();
    let fill = Mutation::Fill { exposure: 1, instrument_id: 1, quantity: 1 };
    assert_eq!(store.update(101, 1, fill), Ok(2));
    assert_eq!(store.update(101, 1, fill), Err(UpdateError::VersionConflict));
    assert_eq!(store.update(102, 2, fill), Err(UpdateError::NotFound));
    let bad = Mutation::Limits { max_exposure: 0, max_order_size: 5 };
    assert_eq!(store.update(101, 2, bad), Err(UpdateError::InvalidLimits));
    assert_eq!(account(&store).version, 2);
}

#[test]
fn attempts_stop_with_contention() {
    let mut attempt = 0;
    loop {
        match after_commit(attempt, Err(UpdateError::VersionConflict)) {
            AttemptStep::Retry { next_attempt } => attempt = next_attempt,
            AttemptStep::Done(d) => {
                assert_eq!(d, RiskDecision::Rejected(RejectReason::Contention));
                break;
            }
        }
    }
    assert_eq!(attempt + 1, MAX_UPDATE_ATTEMPTS);
    assert_eq!(after_commit(0, Ok(3)), AttemptStep::Done(RiskDecision::Approved));
    assert_eq!(
        after_commit(0, Err(UpdateError::VersionExhausted)),
        AttemptStep::Done(RiskDecision::Rejected(RejectReason::StoreUnavailable))
    );
}

#[test]
fn concurrent_write_forces_a_fresh_read() {
    let mut store = demo_store();
    let o = order(10, 1_000, 10, Side::Buy);
    let snapshot = store.read(101);
    let plan = plan_order(&snapshot, &o);
    // A limits write lands between the read and the commit.
    let limits = Mutation::Limits { max_exposure: 7_500_000, max_order_size: 75 };
    assert_eq!(store.update(101, 1, limits), Ok(2));
    match plan {
        OrderPlan::Commit { expected_version, fill } => {
            let outcome = store.update(101, expected_version, fill);
            assert_eq!(after_commit(0, outcome), AttemptStep::Retry { next_attempt: 1 });
        }
        OrderPlan::Decided(_) => panic!("the order passes validation"),
    }
    let a = account(&store);
    assert_eq!(a.current_exposure, 5_000_000);
    assert_eq!(a.current_max_exposure, 7_500_000);
    // The second attempt validates against the new limits.
    match plan_order(&store.read(101), &o) {
        OrderPlan::Commit { expected_version, fill } => {
            assert_eq!(expected_version, 2);
            assert_eq!(store.update(101, expected_version, fill), Ok(3));
        }
        OrderPlan::Decided(_) => panic!("the order passes validation"),
    }
    assert_eq!(account(&store).current_exposure, 5_010_000);
    assert_eq!(account(&store).current_max_order_size, 75);
}

#[test]
fn plan_without_account() {
    let o = order(11, 1, 1, Side::Buy);
    assert_eq!(
        plan_order(&None, &o),
        OrderPlan::Decided(RiskDecision::Rejected(RejectReason::AccountNotFound))
    );
}

#[test]
fn onboarding_rules() {
    assert_eq!(AccountState::open(1, 1, 100).err(), Some(LimitError::InvalidBaseLimits));
    assert_eq!(AccountState::open(1, 100, 1).err(), Some(LimitError::InvalidBaseLimits));
    let a = AccountState::open(1, 2, 2).unwrap();
    assert_eq!(a.current_max_exposure, 2);
    assert_eq!(a.current_max_order_size, 2);
    assert_eq!(a.current_exposure, 0);
    let mut store = demo_store();
    assert_eq!(setup_initial_account_state(&mut store), Err(OnboardError::AlreadyExists));
    assert_eq!(account(&store).current_exposure, 5_000_000);
    assert_eq!(store.onboard(2, 100, 1), Err(OnboardError::InvalidLimits));
    assert!(store.read(2).is_none());
    assert_eq!(store.onboard(2, 300, 30), Ok(()));
    let fresh = store.read(2).unwrap().snapshot();
    assert_eq!((fresh.current_exposure, fresh.version), (0, 0));
    assert_eq!((fresh.current_max_exposure, fresh.current_max_order_size), (300, 30));
    assert!(fresh.positions.is_empty());
}

#[test]
fn rejection_texts() {
    assert_eq!(RejectReason::AccountNotFound.text(), "account not found");
    assert_eq!(
        RejectReason::OrderSizeExceedsLimit { size: 150, max_size: 100 }.text(),
        "order size exceeds limit"
    );
    assert_eq!(
        RejectReason::ExposureLimitBreach { attempted: 2, max_exposure: 1 }.text(),
        "exposure limit breach"
    );
    assert_eq!(RejectReason::PositionOverflow { instrument_id: 3 }.text(), "position out of range");
    assert_eq!(RejectReason::Contention.text(), "contention, retry");
    assert_eq!(RejectReason::StoreUnavailable.text(), "store unavailable");
}
