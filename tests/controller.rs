use risk_core::controller::{
    adjust_limits_from_var, regime_limits, select_regime, ControllerOutcome, Regime, SkipReason,
};
use risk_core::store::{setup_initial_account_state, AccountStore};
use risk_core::var::VaRResult;

fn estimate(var_amount: i128, portfolio_value: i128) -> VaRResult {
    VaRResult {
        confidence_bps: 9_900,
        var_amount,
        portfolio_value,
        timestamp_utc: "2024-01-01T00:00:00+00:00".to_string(),
    }
}

fn store_with_demo_account() -> AccountStore {
    let mut store = AccountStore::new();
    setup_initial_account_state(&mut store).unwrap();
    store
}

#[test]
fn regime_threshold() {
    assert_eq!(select_regime(100, 0), None);
    assert_eq!(select_regime(40_000, 750_000), Some(Regime::Tightened));
    // Exactly 5% is not above the threshold.
    assert_eq!(select_regime(37_500, 750_000), Some(Regime::Baseline));
    assert_eq!(select_regime(37_501, 750_000), Some(Regime::Tightened));
    assert_eq!(select_regime(-40_000, 750_000), Some(Regime::Baseline));
    // A short book: the ratio of two negatives.
    assert_eq!(select_regime(-40_000, -750_000), Some(Regime::Tightened));
    assert_eq!(select_regime(40_000, -750_000), Some(Regime::Baseline));
    assert_eq!(select_regime(i128::MAX, 1), Some(Regime::Tightened));
    assert_eq!(select_regime(i128::MIN, 1), Some(Regime::Baseline));
    assert_eq!(select_regime(i128::MIN, -1), Some(Regime::Tightened));
}

#[test]
fn tightened_limits_are_three_quarters_rounded_down() {
    assert_eq!(regime_limits(100_000, 100, Regime::Tightened), (75_000, 75));
    assert_eq!(regime_limits(101, 101, Regime::Tightened), (75, 75));
    assert_eq!(regime_limits(2, 2, Regime::Tightened), (1, 1));
    assert_eq!(regime_limits(100_000, 100, Regime::Baseline), (100_000, 100));
    assert_eq!(regime_limits(i64::MAX, u32::MAX, Regime::Tightened), (6_917_529_027_641_081_855, 3_221_225_471));
}

#[test]
fn tick_skips_without_estimate_or_value() {
    let mut store = store_with_demo_account();
    assert_eq!(
        adjust_limits_from_var(&mut store, 101, None),
        ControllerOutcome::Skipped(SkipReason::NoEstimate)
    );
    let zero = estimate(10, 0);
    assert_eq!(
        adjust_limits_from_var(&mut store, 101, Some(&zero)),
        ControllerOutcome::Skipped(SkipReason::ZeroPortfolioValue)
    );
    let high = estimate(40_000, 750_000);
    assert_eq!(
        adjust_limits_from_var(&mut store, 7, Some(&high)),
        ControllerOutcome::Skipped(SkipReason::AccountNotFound)
    );
    assert_eq!(store.read(101).unwrap().version, 0);
}

#[test]
fn tightening_and_release() {
    let mut store = store_with_demo_account();
    let high = estimate(40_000, 750_000);
    assert_eq!(
        adjust_limits_from_var(&mut store, 101, Some(&high)),
        ControllerOutcome::Applied(Regime::Tightened)
    );
    let a = store.read(101).unwrap();
    assert_eq!(a.current_max_exposure, 7_500_000);
    assert_eq!(a.current_max_order_size, 75);
    assert_eq!(a.current_exposure, 0);
    let low = estimate(10_000, 750_000);
    assert_eq!(
        adjust_limits_from_var(&mut store, 101, Some(&low)),
        ControllerOutcome::Applied(Regime::Baseline)
    );
    let a = store.read(101).unwrap();
    assert_eq!(a.current_max_exposure, 10_000_000);
    assert_eq!(a.current_max_order_size, 100);
}

#[test]
fn tightening_twice_does_not_drift() {
    let mut store = store_with_demo_account();
    let high = estimate(40_000, 750_000);
    adjust_limits_from_var(&mut store, 101, Some(&high));
    let once = store.read(101).unwrap();
    adjust_limits_from_var(&mut store, 101, Some(&high));
    let twice = store.read(101).unwrap();
    assert_eq!(once.current_max_exposure, twice.current_max_exposure);
    assert_eq!(once.current_max_order_size, twice.current_max_order_size);
    assert_eq!(twice.current_max_order_size, 75);
    assert_eq!(twice.version, 2);
}
