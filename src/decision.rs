//! The risk decision engine: validates one order against an account
//! snapshot and commits the approved fill through the store.

use crate::account::{AccountState, AccountView, Mutation};
use crate::order::{notional, signed_quantity, OrderRequest, RejectReason, RiskDecision, Side};
use crate::store::{updated, AccountStore, UpdateError};
use vstd::prelude::*;

verus! {

/// How many compare-and-swap attempts one order gets before it is refused
/// with `Contention`.
pub const MAX_UPDATE_ATTEMPTS: u32 = 5;

/// Validation of an order against one snapshot: the fill to commit, or why
/// the order is refused. Exposure grows by the gross notional whatever the
/// side; the position moves by the signed quantity.
pub open spec fn evaluate(a: AccountView, o: OrderRequest) -> Result<Mutation, RejectReason> {
    let attempted = a.current_exposure + notional(o);
    let position = a.position(o.instrument_id) + signed_quantity(o);
    if o.size > a.current_max_order_size {
        Err(RejectReason::OrderSizeExceedsLimit { size: o.size, max_size: a.current_max_order_size })
    } else if attempted > a.current_max_exposure {
        Err(RejectReason::ExposureLimitBreach { attempted: attempted as i128, max_exposure: a.current_max_exposure })
    } else if position < i64::MIN || position > i64::MAX {
        Err(RejectReason::PositionOverflow { instrument_id: o.instrument_id })
    } else {
        Ok(
            Mutation::Fill {
                exposure: attempted as i64,
                instrument_id: o.instrument_id,
                quantity: position as i64,
            },
        )
    }
}

/// The decision for an order against the whole store.
pub open spec fn decide(accounts: Map<u32, AccountView>, o: OrderRequest) -> RiskDecision {
    if !accounts.contains_key(o.account_id) {
        RiskDecision::Rejected(RejectReason::AccountNotFound)
    } else {
        match evaluate(accounts[o.account_id], o) {
            Err(r) => RiskDecision::Rejected(r),
            Ok(m) => if accounts[o.account_id].version == u64::MAX {
                RiskDecision::Rejected(RejectReason::StoreUnavailable)
            } else {
                RiskDecision::Approved
            },
        }
    }
}

/// The store after an order: changed only when the order is approved.
pub open spec fn apply_order(accounts: Map<u32, AccountView>, o: OrderRequest) -> Map<
    u32,
    AccountView,
> {
    if !accounts.contains_key(o.account_id) {
        accounts
    } else {
        match evaluate(accounts[o.account_id], o) {
            Err(_) => accounts,
            Ok(m) => updated(accounts, o.account_id, accounts[o.account_id].version, m),
        }
    }
}

/// A notional is below 2^96, so it fits an `i128` with room to spare.
proof fn lemma_notional_bound(o: OrderRequest)
    ensures
        0 <= notional(o) <= 0xffff_ffff_ffff_ffff * 0xffff_ffff,
{
    let p = o.price as int;
    let q = o.size as int;
    assert(0 <= p * q <= 0xffff_ffff_ffff_ffff * 0xffff_ffff) by (nonlinear_arith)
        requires
            0 <= p <= 0xffff_ffff_ffff_ffff,
            0 <= q <= 0xffff_ffff,
    ;
}

/// Validates `order` against `account` (steps that only read).
pub fn evaluate_order(account: &AccountState, order: &OrderRequest) -> (r: Result<
    Mutation,
    RejectReason,
>)
    ensures
        r == evaluate(account@, *order),
{
    proof {
        lemma_notional_bound(*order);
    }
    let notional: u128 = order.price as u128 * order.size as u128;
    let attempted: i128 = account.current_exposure as i128 + notional as i128;
    if order.size > account.current_max_order_size {
        return Err(
            RejectReason::OrderSizeExceedsLimit {
                size: order.size,
                max_size: account.current_max_order_size,
            },
        );
    }
    if attempted > account.current_max_exposure as i128 {
        return Err(
            RejectReason::ExposureLimitBreach {
                attempted,
                max_exposure: account.current_max_exposure,
            },
        );
    }
    let held: i128 = account.position(order.instrument_id) as i128;
    let position: i128 = match order.side {
        Side::Buy => held + order.size as i128,
        Side::Sell => held - order.size as i128,
    };
    if position < i64::MIN as i128 || position > i64::MAX as i128 {
        return Err(RejectReason::PositionOverflow { instrument_id: order.instrument_id });
    }
    Ok(
        Mutation::Fill {
            exposure: attempted as i64,
            instrument_id: order.instrument_id,
            quantity: position as i64,
        },
    )
}

/// What one attempt does next, once the snapshot is read.
#[derive(Debug, Clone, Copy, PartialEq, Eq, Structural)]
pub enum OrderPlan {
    /// Commit this fill, on condition that the account is still at this version.
    Commit { expected_version: u64, fill: Mutation },
    /// The order is decided without a write.
    Decided(RiskDecision),
}

/// What the attempt loop does after a commit.
#[derive(Debug, Clone, Copy, PartialEq, Eq, Structural)]
pub enum AttemptStep {
    Done(RiskDecision),
    /// Read the account again and make attempt number `next_attempt`.
    Retry { next_attempt: u32 },
}

/// The plan for an order, given the snapshot just read (`None`: no such account).
pub open spec fn plan(snapshot: Option<AccountView>, o: OrderRequest) -> OrderPlan {
    match snapshot {
        None => OrderPlan::Decided(RiskDecision::Rejected(RejectReason::AccountNotFound)),
        Some(a) => match evaluate(a, o) {
            Err(r) => OrderPlan::Decided(RiskDecision::Rejected(r)),
            Ok(m) => OrderPlan::Commit { expected_version: a.version, fill: m },
        },
    }
}

/// The step after attempt `attempt` (counted from 0) ended with `outcome`.
pub open spec fn next_step(attempt: u32, outcome: Result<u64, UpdateError>) -> AttemptStep {
    match outcome {
        Ok(_) => AttemptStep::Done(RiskDecision::Approved),
        Err(UpdateError::VersionConflict) => if attempt + 1 < MAX_UPDATE_ATTEMPTS {
            AttemptStep::Retry { next_attempt: (attempt + 1) as u32 }
        } else {
            AttemptStep::Done(RiskDecision::Rejected(RejectReason::Contention))
        },
        Err(UpdateError::NotFound) => AttemptStep::Done(
            RiskDecision::Rejected(RejectReason::AccountNotFound),
        ),
        Err(_) => AttemptStep::Done(RiskDecision::Rejected(RejectReason::StoreUnavailable)),
    }
}

/// First half of one attempt: validates the order against a fresh snapshot.
pub fn plan_order(snapshot: &Option<AccountState>, order: &OrderRequest) -> (r: OrderPlan)
    ensures
        r == plan(
            match snapshot {
                Some(a) => Some(a@),
                None => None,
            },
            *order,
        ),
{
    match snapshot {
        None => OrderPlan::Decided(RiskDecision::Rejected(RejectReason::AccountNotFound)),
        Some(a) => match evaluate_order(a, order) {
            Err(r) => OrderPlan::Decided(RiskDecision::Rejected(r)),
            Ok(m) => OrderPlan::Commit { expected_version: a.version, fill: m },
        },
    }
}

/// Second half of one attempt: turns the commit's outcome into a decision or
/// a retry. A conflict is retried until `MAX_UPDATE_ATTEMPTS` attempts were
/// made; every other failure refuses the order.
pub fn after_commit(attempt: u32, outcome: Result<u64, UpdateError>) -> (r: AttemptStep)
    ensures
        r == next_step(attempt, outcome),
{
    match outcome {
        Ok(_) => AttemptStep::Done(RiskDecision::Approved),
        Err(UpdateError::VersionConflict) => if attempt < MAX_UPDATE_ATTEMPTS - 1 {
            AttemptStep::Retry { next_attempt: attempt + 1 }
        } else {
            AttemptStep::Done(RiskDecision::Rejected(RejectReason::Contention))
        },
        Err(UpdateError::NotFound) => AttemptStep::Done(
            RiskDecision::Rejected(RejectReason::AccountNotFound),
        ),
        Err(_) => AttemptStep::Done(RiskDecision::Rejected(RejectReason::StoreUnavailable)),
    }
}

/// Validates `order` and, when it passes, commits its fill to the store in
/// the same step: the write is made against the version that was validated.
pub fn check_and_apply(store: &mut AccountStore, order: &OrderRequest) -> (r: RiskDecision)
    requires
        old(store).wf(),
    ensures
        final(store).wf(),
        r == decide(old(store)@, *order),
        final(store)@ == apply_order(old(store)@, *order),
{
    let snapshot = store.read(order.account_id);
    match plan_order(&snapshot, order) {
        OrderPlan::Decided(d) => d,
        OrderPlan::Commit { expected_version, fill } => {
            let outcome = store.update(order.account_id, expected_version, fill);
            match after_commit(0, outcome) {
                AttemptStep::Done(d) => d,
                // Not reached: with exclusive access the version cannot move
                // between the read and the commit.
                AttemptStep::Retry { .. } => RiskDecision::Rejected(RejectReason::Contention),
            }
        },
    }
}

/// The store after `orders` were decided one after another.
pub open spec fn run_orders(accounts: Map<u32, AccountView>, orders: Seq<OrderRequest>) -> Map<
    u32,
    AccountView,
>
    decreases orders.len(),
{
    if orders.len() == 0 {
        accounts
    } else {
        apply_order(run_orders(accounts, orders.drop_last()), orders.last())
    }
}

/// `n` copies of one order.
pub open spec fn repeated(o: OrderRequest, n: nat) -> Seq<OrderRequest> {
    Seq::new(n, |i: int| o)
}

/// An order that passes both limits (and whose position and version can
/// still advance) is approved, and the account's exposure rises by exactly
/// its notional; limits and the other accounts stay as they were.
pub proof fn lemma_order_within_limits_is_approved(
    accounts: Map<u32, AccountView>,
    o: OrderRequest,
)
    requires
        accounts.contains_key(o.account_id),
        o.size <= accounts[o.account_id].current_max_order_size,
        accounts[o.account_id].current_exposure + notional(o)
            <= accounts[o.account_id].current_max_exposure,
        i64::MIN <= accounts[o.account_id].position(o.instrument_id) + signed_quantity(o)
            <= i64::MAX,
        accounts[o.account_id].version < u64::MAX,
    ensures
        decide(accounts, o) == RiskDecision::Approved,
        apply_order(accounts, o).contains_key(o.account_id),
        apply_order(accounts, o)[o.account_id].current_exposure
            == accounts[o.account_id].current_exposure + notional(o),
        apply_order(accounts, o)[o.account_id].position(o.instrument_id)
            == accounts[o.account_id].position(o.instrument_id) + signed_quantity(o),
        apply_order(accounts, o)[o.account_id].current_max_exposure
            == accounts[o.account_id].current_max_exposure,
        apply_order(accounts, o)[o.account_id].current_max_order_size
            == accounts[o.account_id].current_max_order_size,
        forall|id: u32|
            id != o.account_id ==> #[trigger] apply_order(accounts, o).contains_key(id)
                == accounts.contains_key(id) && apply_order(accounts, o)[id] == accounts[id],
{
}

/// An order over the order-size limit or over the exposure limit is
/// rejected, and the store is left exactly as it was.
pub proof fn lemma_order_over_limit_is_rejected(accounts: Map<u32, AccountView>, o: OrderRequest)
    requires
        accounts.contains_key(o.account_id),
        o.size > accounts[o.account_id].current_max_order_size
            || accounts[o.account_id].current_exposure + notional(o)
            > accounts[o.account_id].current_max_exposure,
    ensures
        decide(accounts, o) is Rejected,
        apply_order(accounts, o) == accounts,
{
}

/// Whatever the orders, an account whose exposure starts within its limit
/// ends within it, and its limit is left as it was.
pub proof fn lemma_exposure_never_overshoots(
    accounts: Map<u32, AccountView>,
    orders: Seq<OrderRequest>,
    account_id: u32,
)
    requires
        accounts.contains_key(account_id),
        accounts[account_id].current_exposure <= accounts[account_id].current_max_exposure,
    ensures
        run_orders(accounts, orders).contains_key(account_id),
        run_orders(accounts, orders)[account_id].current_max_exposure
            == accounts[account_id].current_max_exposure,
        run_orders(accounts, orders)[account_id].current_exposure
            <= accounts[account_id].current_max_exposure,
    decreases orders.len(),
{
    if orders.len() > 0 {
        lemma_exposure_never_overshoots(accounts, orders.drop_last(), account_id);
    }
}

/// A store that rejects an order is not changed by it.
proof fn lemma_rejection_changes_nothing(accounts: Map<u32, AccountView>, o: OrderRequest)
    requires
        decide(accounts, o) != RiskDecision::Approved,
    ensures
        apply_order(accounts, o) == accounts,
{
}

/// `n` copies of one order are decided one after another: the approved
/// copies are exactly the first `k`, the account's exposure rises by `k`
/// notionals, and, if it started within its limit, it ends within it.
pub proof fn lemma_repeated_order_approves_a_prefix(
    accounts: Map<u32, AccountView>,
    o: OrderRequest,
    n: nat,
) -> (k: nat)
    requires
        accounts.contains_key(o.account_id),
    ensures
        k <= n,
        forall|i: nat|
            i < n ==> (#[trigger] decide(run_orders(accounts, repeated(o, i)), o)
                == RiskDecision::Approved <==> i < k),
        run_orders(accounts, repeated(o, n)).contains_key(o.account_id),
        run_orders(accounts, repeated(o, n))[o.account_id].current_exposure
            == accounts[o.account_id].current_exposure + k * notional(o),
        run_orders(accounts, repeated(o, n))[o.account_id].current_max_exposure
            == accounts[o.account_id].current_max_exposure,
        accounts[o.account_id].current_exposure <= accounts[o.account_id].current_max_exposure
            ==> run_orders(accounts, repeated(o, n))[o.account_id].current_exposure
            <= accounts[o.account_id].current_max_exposure,
        k < n ==> decide(run_orders(accounts, repeated(o, n)), o) != RiskDecision::Approved,
    decreases n,
{
    let id = o.account_id;
    if n == 0 {
        assert(repeated(o, 0) =~= Seq::<OrderRequest>::empty());
        0
    } else {
        let m = (n - 1) as nat;
        let k0 = lemma_repeated_order_approves_a_prefix(accounts, o, m);
        assert(repeated(o, n).drop_last() =~= repeated(o, m));
        assert(repeated(o, n).last() == o);
        let before = run_orders(accounts, repeated(o, m));
        assert(run_orders(accounts, repeated(o, n)) == apply_order(before, o));
        if decide(before, o) == RiskDecision::Approved {
            assert(k0 == m);
            let r = m + 1;
            assert(r * notional(o) == k0 * notional(o) + notional(o)) by (nonlinear_arith)
                requires
                    r == k0 + 1,
            ;
            assert forall|i: nat| i < n implies (#[trigger] decide(
                run_orders(accounts, repeated(o, i)),
                o,
            ) == RiskDecision::Approved <==> i < r) by {
                if i < m {
                } else {
                    assert(i == m);
                }
            }
            r
        } else {
            lemma_rejection_changes_nothing(before, o);
            assert forall|i: nat| i < n implies (#[trigger] decide(
                run_orders(accounts, repeated(o, i)),
                o,
            ) == RiskDecision::Approved <==> i < k0) by {
                if i < m {
                } else {
                    assert(i == m);
                }
            }
            k0
        }
    }
}

} // verus!
