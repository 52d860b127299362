//! Order requests and risk decisions.

use vstd::prelude::*;

verus! {

#[derive(Debug, Clone, Copy, PartialEq, Eq, Structural)]
pub enum Side {
    Buy,
    Sell,
}

/// A trade request; `price` is in the smallest currency unit.
#[derive(Debug, Clone, Copy, PartialEq, Eq, Structural)]
pub struct OrderRequest {
    pub order_id: u128,
    pub account_id: u32,
    pub instrument_id: u32,
    pub price: u64,
    pub size: u32,
    pub side: Side,
}

/// Why an order was refused.
#[derive(Debug, Clone, Copy, PartialEq, Eq, Structural)]
pub enum RejectReason {
    AccountNotFound,
    /// The order is larger than the active order-size limit.
    OrderSizeExceedsLimit { size: u32, max_size: u32 },
    /// The exposure after the order would be above the active exposure limit.
    ExposureLimitBreach { attempted: i128, max_exposure: i64 },
    /// The position in the instrument would leave the range of `i64`.
    PositionOverflow { instrument_id: u32 },
    /// Concurrent updates kept winning; the order may be sent again.
    Contention,
    /// The store could not be read or written; the order is refused.
    StoreUnavailable,
}

/// The text of a rejection reason.
pub open spec fn reason_text(r: RejectReason) -> Seq<char> {
    match r {
        RejectReason::AccountNotFound => "account not found"@,
        RejectReason::OrderSizeExceedsLimit { .. } => "order size exceeds limit"@,
        RejectReason::ExposureLimitBreach { .. } => "exposure limit breach"@,
        RejectReason::PositionOverflow { .. } => "position out of range"@,
        RejectReason::Contention => "contention, retry"@,
        RejectReason::StoreUnavailable => "store unavailable"@,
    }
}

impl RejectReason {
    /// The reason in words, without its values.
    pub fn text(&self) -> (r: &'static str)
        ensures
            r@ == reason_text(*self),
    {
        match self {
            RejectReason::AccountNotFound => "account not found",
            RejectReason::OrderSizeExceedsLimit { .. } => "order size exceeds limit",
            RejectReason::ExposureLimitBreach { .. } => "exposure limit breach",
            RejectReason::PositionOverflow { .. } => "position out of range",
            RejectReason::Contention => "contention, retry",
            RejectReason::StoreUnavailable => "store unavailable",
        }
    }
}

#[derive(Debug, Clone, Copy, PartialEq, Eq, Structural)]
pub enum RiskDecision {
    Approved,
    Rejected(RejectReason),
}

/// Notional value of an order: price times size.
pub open spec fn notional(o: OrderRequest) -> int {
    o.price as int * o.size as int
}

/// Change of position an order makes: `size` for a buy, `-size` for a sell.
pub open spec fn signed_quantity(o: OrderRequest) -> int {
    match o.side {
        Side::Buy => o.size as int,
        Side::Sell => -(o.size as int),
    }
}

} // verus!
