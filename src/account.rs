//! Account state: limits, running exposure and per-instrument positions.

use std::collections::HashMap;
use vstd::prelude::*;

verus! {

broadcast use vstd::std_specs::hash::group_hash_axioms;

/// Mathematical model of one account.
pub struct AccountView {
    pub account_id: u32,
    pub base_max_exposure: i64,
    pub base_max_order_size: u32,
    pub current_max_exposure: i64,
    pub current_max_order_size: u32,
    pub current_exposure: i64,
    pub positions: Map<u32, i64>,
    pub version: u64,
}

impl AccountView {
    /// Baseline limits leave room for a tightened regime that stays positive,
    /// and the active limits are positive.
    pub open spec fn limits_valid(self) -> bool {
        &&& self.base_max_exposure >= 2
        &&& self.base_max_order_size >= 2
        &&& self.current_max_exposure > 0
        &&& self.current_max_order_size > 0
    }

    /// Signed quantity held in an instrument; zero when none was ever traded.
    pub open spec fn position(self, instrument_id: u32) -> int {
        if self.positions.contains_key(instrument_id) {
            self.positions[instrument_id] as int
        } else {
            0
        }
    }
}

/// One account as the store keeps it.
///
/// `current_exposure` and `positions` belong to the decision engine, the
/// `current_max_*` limits to the limit controller, `version` to the store.
pub struct AccountState {
    pub account_id: u32,
    pub base_max_exposure: i64,
    pub base_max_order_size: u32,
    pub current_max_exposure: i64,
    pub current_max_order_size: u32,
    pub current_exposure: i64,
    pub positions: HashMap<u32, i64>,
    pub version: u64,
}

impl View for AccountState {
    type V = AccountView;

    open spec fn view(&self) -> AccountView {
        AccountView {
            account_id: self.account_id,
            base_max_exposure: self.base_max_exposure,
            base_max_order_size: self.base_max_order_size,
            current_max_exposure: self.current_max_exposure,
            current_max_order_size: self.current_max_order_size,
            current_exposure: self.current_exposure,
            positions: self.positions@,
            version: self.version,
        }
    }
}

/// Why an account could not be opened.
#[derive(Debug, Clone, Copy, PartialEq, Eq, Structural)]
pub enum LimitError {
    /// A baseline limit is below 2, so its tightened value would be zero.
    InvalidBaseLimits,
}

/// A change to an account that touches only the fields of one writer.
#[derive(Debug, Clone, Copy, PartialEq, Eq, Structural)]
pub enum Mutation {
    /// Decision engine: new running exposure and new position in one instrument.
    Fill { exposure: i64, instrument_id: u32, quantity: i64 },
    /// Limit controller: new active limits.
    Limits { max_exposure: i64, max_order_size: u32 },
}

/// The account after `m`, before the store assigns the next version.
pub open spec fn mutated(a: AccountView, m: Mutation) -> AccountView {
    match m {
        Mutation::Fill { exposure, instrument_id, quantity } => AccountView {
            current_exposure: exposure,
            positions: a.positions.insert(instrument_id, quantity),
            ..a
        },
        Mutation::Limits { max_exposure, max_order_size } => AccountView {
            current_max_exposure: max_exposure,
            current_max_order_size: max_order_size,
            ..a
        },
    }
}

/// Limits of a `Limits` mutation are positive; a `Fill` sets none.
pub open spec fn mutation_valid(m: Mutation) -> bool {
    match m {
        Mutation::Fill { .. } => true,
        Mutation::Limits { max_exposure, max_order_size } => max_exposure > 0 && max_order_size > 0,
    }
}

/// What `AccountState::open` returns.
pub open spec fn opened(
    account_id: u32,
    base_max_exposure: i64,
    base_max_order_size: u32,
) -> Result<AccountView, LimitError> {
    if base_max_exposure < 2 || base_max_order_size < 2 {
        Err(LimitError::InvalidBaseLimits)
    } else {
        Ok(
            AccountView {
                account_id,
                base_max_exposure,
                base_max_order_size,
                current_max_exposure: base_max_exposure,
                current_max_order_size: base_max_order_size,
                current_exposure: 0,
                positions: Map::empty(),
                version: 0,
            },
        )
    }
}

impl AccountState {
    /// Opens an account at its baseline limits, with zero exposure, no
    /// positions and at version 0.
    pub fn open(account_id: u32, base_max_exposure: i64, base_max_order_size: u32) -> (r: Result<AccountState, LimitError>)
        ensures
            match r {
                Ok(a) => opened(account_id, base_max_exposure, base_max_order_size)
                    == Ok::<AccountView, LimitError>(a@),
                Err(e) => opened(account_id, base_max_exposure, base_max_order_size)
                    == Err::<AccountView, LimitError>(e),
            },
    {
        if base_max_exposure < 2 || base_max_order_size < 2 {
            return Err(LimitError::InvalidBaseLimits);
        }
        let positions: HashMap<u32, i64> = HashMap::new();
        let a = AccountState {
            account_id,
            base_max_exposure,
            base_max_order_size,
            current_max_exposure: base_max_exposure,
            current_max_order_size: base_max_order_size,
            current_exposure: 0,
            positions,
            version: 0,
        };
        assert(a@ =~= opened(account_id, base_max_exposure, base_max_order_size)->Ok_0);
        Ok(a)
    }

    /// A copy of this account.
    pub fn snapshot(&self) -> (r: AccountState)
        ensures
            r@ == self@,
    {
        AccountState {
            account_id: self.account_id,
            base_max_exposure: self.base_max_exposure,
            base_max_order_size: self.base_max_order_size,
            current_max_exposure: self.current_max_exposure,
            current_max_order_size: self.current_max_order_size,
            current_exposure: self.current_exposure,
            positions: self.positions.clone(),
            version: self.version,
        }
    }

    /// Whether the limits satisfy the account invariant.
    pub fn limits_valid(&self) -> (r: bool)
        ensures
            r == self@.limits_valid(),
    {
        self.base_max_exposure >= 2 && self.base_max_order_size >= 2 && self.current_max_exposure
            > 0 && self.current_max_order_size > 0
    }

    /// Signed quantity held in an instrument (zero when absent).
    pub fn position(&self, instrument_id: u32) -> (r: i64)
        ensures
            r == self@.position(instrument_id),
    {
        match self.positions.get(&instrument_id) {
            Some(q) => *q,
            None => 0,
        }
    }

    /// Applies `m` in place; the version is left to the caller.
    pub fn apply(&mut self, m: Mutation)
        ensures
            final(self)@ == mutated(old(self)@, m),
    {
        match m {
            Mutation::Fill { exposure, instrument_id, quantity } => {
                self.current_exposure = exposure;
                self.positions.insert(instrument_id, quantity);
            },
            Mutation::Limits { max_exposure, max_order_size } => {
                self.current_max_exposure = max_exposure;
                self.current_max_order_size = max_order_size;
            },
        }
        assert(self@ =~= mutated(old(self)@, m));
    }
}

} // verus!
