//! The adaptive limit controller: maps the latest value-at-risk estimate
//! onto an account's active limits.

use crate::account::{AccountView, Mutation};
use crate::store::{accounts_valid, update_outcome, updated, AccountStore, UpdateError};
use crate::var::VaRResult;
use vstd::prelude::*;

verus! {

/// A value-at-risk ratio above `1 / RATIO_THRESHOLD_DIVISOR` (5%) tightens the limits.
pub const RATIO_THRESHOLD_DIVISOR: i128 = 20;

#[derive(Debug, Clone, Copy, PartialEq, Eq, Structural)]
pub enum Regime {
    Baseline,
    /// Limits at three quarters of the baseline, rounded down.
    Tightened,
}

/// Why a controller tick changed nothing.
#[derive(Debug, Clone, Copy, PartialEq, Eq, Structural)]
pub enum SkipReason {
    /// No estimate was published yet.
    NoEstimate,
    /// The portfolio value is zero, so the ratio is undefined.
    ZeroPortfolioValue,
    AccountNotFound,
    /// The store refused the write.
    StoreRefused(UpdateError),
}

#[derive(Debug, Clone, Copy, PartialEq, Eq, Structural)]
pub enum ControllerOutcome {
    Applied(Regime),
    Skipped(SkipReason),
}

/// `var_amount / portfolio_value > 5%`, for a non-zero portfolio value.
pub open spec fn ratio_exceeds_threshold(var_amount: int, portfolio_value: int) -> bool {
    if portfolio_value > 0 {
        RATIO_THRESHOLD_DIVISOR * var_amount > portfolio_value
    } else {
        RATIO_THRESHOLD_DIVISOR * var_amount < portfolio_value
    }
}

/// The regime for an estimate; none when the portfolio value is zero.
pub open spec fn regime_for(var_amount: int, portfolio_value: int) -> Option<Regime> {
    if portfolio_value == 0 {
        None
    } else if ratio_exceeds_threshold(var_amount, portfolio_value) {
        Some(Regime::Tightened)
    } else {
        Some(Regime::Baseline)
    }
}

/// Three quarters of a baseline limit, rounded down.
pub open spec fn tightened(base: int) -> int {
    base * 3 / 4
}

/// The limits mutation that puts an account into a regime.
pub open spec fn limits_for(a: AccountView, regime: Regime) -> Mutation {
    match regime {
        Regime::Baseline => Mutation::Limits {
            max_exposure: a.base_max_exposure,
            max_order_size: a.base_max_order_size,
        },
        Regime::Tightened => Mutation::Limits {
            max_exposure: tightened(a.base_max_exposure as int) as i64,
            max_order_size: tightened(a.base_max_order_size as int) as u32,
        },
    }
}

/// What one controller tick reports.
pub open spec fn adjust_outcome(
    accounts: Map<u32, AccountView>,
    account_id: u32,
    latest: Option<VaRResult>,
) -> ControllerOutcome {
    match latest {
        None => ControllerOutcome::Skipped(SkipReason::NoEstimate),
        Some(v) => match regime_for(v.var_amount as int, v.portfolio_value as int) {
            None => ControllerOutcome::Skipped(SkipReason::ZeroPortfolioValue),
            Some(g) => if !accounts.contains_key(account_id) {
                ControllerOutcome::Skipped(SkipReason::AccountNotFound)
            } else {
                match update_outcome(
                    accounts,
                    account_id,
                    accounts[account_id].version,
                    limits_for(accounts[account_id], g),
                ) {
                    Ok(_) => ControllerOutcome::Applied(g),
                    Err(e) => ControllerOutcome::Skipped(SkipReason::StoreRefused(e)),
                }
            },
        },
    }
}

/// The store after a controller tick on the figures of an estimate.
pub open spec fn adjusted(
    accounts: Map<u32, AccountView>,
    account_id: u32,
    var_amount: int,
    portfolio_value: int,
) -> Map<u32, AccountView> {
    match regime_for(var_amount, portfolio_value) {
        None => accounts,
        Some(g) => if !accounts.contains_key(account_id) {
            accounts
        } else {
            updated(
                accounts,
                account_id,
                accounts[account_id].version,
                limits_for(accounts[account_id], g),
            )
        },
    }
}

/// The regime for an estimate's figures.
pub fn select_regime(var_amount: i128, portfolio_value: i128) -> (r: Option<Regime>)
    ensures
        r == regime_for(var_amount as int, portfolio_value as int),
{
    if portfolio_value == 0 {
        return None;
    }
    let exceeds = match var_amount.checked_mul(RATIO_THRESHOLD_DIVISOR) {
        Some(scaled) => if portfolio_value > 0 {
            scaled > portfolio_value
        } else {
            scaled < portfolio_value
        },
        // Beyond the range of i128 the scaled amount passes any portfolio
        // value on the side of its sign.
        None => if portfolio_value > 0 {
            var_amount > 0
        } else {
            var_amount < 0
        },
    };
    if exceeds {
        Some(Regime::Tightened)
    } else {
        Some(Regime::Baseline)
    }
}

/// The active limits of a regime, from the baseline limits.
pub fn regime_limits(base_max_exposure: i64, base_max_order_size: u32, regime: Regime) -> (r: (
    i64,
    u32,
))
    requires
        base_max_exposure >= 0,
    ensures
        r == (match regime {
            Regime::Baseline => (base_max_exposure, base_max_order_size),
            Regime::Tightened => (
                tightened(base_max_exposure as int) as i64,
                tightened(base_max_order_size as int) as u32,
            ),
        }),
        r.0 <= base_max_exposure,
        r.1 <= base_max_order_size,
{
    match regime {
        Regime::Baseline => (base_max_exposure, base_max_order_size),
        Regime::Tightened => {
            let exposure: u64 = (base_max_exposure as u64 as u128 * 3 / 4) as u64;
            let order_size: u32 = (base_max_order_size as u64 * 3 / 4) as u32;
            (exposure as i64, order_size)
        },
    }
}

/// One controller tick: reads the account, derives its regime from the
/// latest estimate and writes only the active limits. Without an estimate,
/// or with a zero portfolio value, the tick is skipped.
pub fn adjust_limits_from_var(
    store: &mut AccountStore,
    account_id: u32,
    latest: Option<&VaRResult>,
) -> (r: ControllerOutcome)
    requires
        old(store).wf(),
    ensures
        final(store).wf(),
        r == adjust_outcome(
            old(store)@,
            account_id,
            match latest {
                Some(v) => Some(*v),
                None => None,
            },
        ),
        final(store)@ == match latest {
            Some(v) => adjusted(old(store)@, account_id, v.var_amount as int, v.portfolio_value as int),
            None => old(store)@,
        },
{
    let v = match latest {
        Some(v) => v,
        None => return ControllerOutcome::Skipped(SkipReason::NoEstimate),
    };
    let regime = match select_regime(v.var_amount, v.portfolio_value) {
        Some(g) => g,
        None => return ControllerOutcome::Skipped(SkipReason::ZeroPortfolioValue),
    };
    let account = match store.read(account_id) {
        Some(a) => a,
        None => return ControllerOutcome::Skipped(SkipReason::AccountNotFound),
    };
    let (max_exposure, max_order_size) = regime_limits(
        account.base_max_exposure,
        account.base_max_order_size,
        regime,
    );
    let limits = Mutation::Limits { max_exposure, max_order_size };
    assert(limits == limits_for(account@, regime));
    match store.update(account_id, account.version, limits) {
        Ok(_) => ControllerOutcome::Applied(regime),
        Err(e) => ControllerOutcome::Skipped(SkipReason::StoreRefused(e)),
    }
}

/// Two ticks in a row on the same estimate leave the same active limits as
/// one: the policy does not drift. Exposure and positions are not touched.
pub proof fn lemma_adjust_is_idempotent(
    accounts: Map<u32, AccountView>,
    account_id: u32,
    var_amount: int,
    portfolio_value: int,
)
    requires
        accounts_valid(accounts),
    ensures
        ({
            let once = adjusted(accounts, account_id, var_amount, portfolio_value);
            let twice = adjusted(once, account_id, var_amount, portfolio_value);
            &&& once.dom() == twice.dom()
            &&& once.contains_key(account_id) ==> {
                &&& twice[account_id].current_max_exposure == once[account_id].current_max_exposure
                &&& twice[account_id].current_max_order_size
                    == once[account_id].current_max_order_size
                &&& twice[account_id].current_exposure == once[account_id].current_exposure
                &&& twice[account_id].positions == once[account_id].positions
            }
        }),
{
    let once = adjusted(accounts, account_id, var_amount, portfolio_value);
    let twice = adjusted(once, account_id, var_amount, portfolio_value);
    assert(once.dom() =~= twice.dom());
}

} // verus!
