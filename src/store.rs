//! The account store: one versioned record per account, changed only by
//! compare-and-swap updates that each touch the fields of one writer.

use crate::account::{mutated, mutation_valid, opened, AccountState, AccountView, Mutation};
use std::collections::HashMap;
use vstd::prelude::*;

verus! {

broadcast use vstd::std_specs::hash::group_hash_axioms;

/// Why an account could not be onboarded.
#[derive(Debug, Clone, Copy, PartialEq, Eq, Structural)]
pub enum OnboardError {
    /// A baseline limit is below 2, so its tightened value would be zero.
    InvalidLimits,
    /// An account with this id is already stored; it is left as it was.
    AlreadyExists,
}

/// Why an update was not committed.
#[derive(Debug, Clone, Copy, PartialEq, Eq, Structural)]
pub enum UpdateError {
    NotFound,
    /// The record changed since the caller read it: read again and retry.
    VersionConflict,
    /// The version counter cannot advance any further.
    VersionExhausted,
    /// A limits mutation would set a limit that is not positive.
    InvalidLimits,
}

/// The outcome of `update`: the new version, or why nothing changed.
pub open spec fn update_outcome(
    accounts: Map<u32, AccountView>,
    account_id: u32,
    expected_version: u64,
    m: Mutation,
) -> Result<u64, UpdateError> {
    if !accounts.contains_key(account_id) {
        Err(UpdateError::NotFound)
    } else if accounts[account_id].version != expected_version {
        Err(UpdateError::VersionConflict)
    } else if expected_version == u64::MAX {
        Err(UpdateError::VersionExhausted)
    } else if !mutation_valid(m) {
        Err(UpdateError::InvalidLimits)
    } else {
        Ok((expected_version + 1) as u64)
    }
}

/// The store after `update`.
pub open spec fn updated(
    accounts: Map<u32, AccountView>,
    account_id: u32,
    expected_version: u64,
    m: Mutation,
) -> Map<u32, AccountView> {
    match update_outcome(accounts, account_id, expected_version, m) {
        Ok(v) => accounts.insert(
            account_id,
            AccountView { version: v, ..mutated(accounts[account_id], m) },
        ),
        Err(_) => accounts,
    }
}

/// Every stored record is filed under its own id and satisfies the account invariant.
pub open spec fn accounts_valid(accounts: Map<u32, AccountView>) -> bool {
    forall|id: u32| #[trigger]
        accounts.contains_key(id) ==> accounts[id].account_id == id
            && accounts[id].limits_valid()
}

pub struct AccountStore {
    accounts: HashMap<u32, AccountState>,
}

impl View for AccountStore {
    type V = Map<u32, AccountView>;

    closed spec fn view(&self) -> Map<u32, AccountView> {
        self.accounts@.map_values(|a: AccountState| a@)
    }
}

impl AccountStore {
    /// The store invariant: see `accounts_valid`.
    pub open spec fn wf(&self) -> bool {
        accounts_valid(self@)
    }

    /// An empty store.
    pub fn new() -> (s: AccountStore)
        ensures
            s.wf(),
            s@ == Map::<u32, AccountView>::empty(),
    {
        let s = AccountStore { accounts: HashMap::new() };
        assert(s@ =~= Map::<u32, AccountView>::empty());
        s
    }

    /// Onboards an account: it is stored at its baseline limits, with zero
    /// exposure, no positions and at version 0. An account already stored
    /// under the id is kept as it is.
    pub fn onboard(&mut self, account_id: u32, base_max_exposure: i64, base_max_order_size: u32) -> (r:
        Result<(), OnboardError>)
        requires
            old(self).wf(),
        ensures
            final(self).wf(),
            r == (match opened(account_id, base_max_exposure, base_max_order_size) {
                Err(_) => Err::<(), OnboardError>(OnboardError::InvalidLimits),
                Ok(_) => if old(self)@.contains_key(account_id) {
                    Err(OnboardError::AlreadyExists)
                } else {
                    Ok(())
                },
            }),
            final(self)@ == (match opened(account_id, base_max_exposure, base_max_order_size) {
                Ok(a) => if r is Ok {
                    old(self)@.insert(account_id, a)
                } else {
                    old(self)@
                },
                Err(_) => old(self)@,
            }),
    {
        let account = match AccountState::open(account_id, base_max_exposure, base_max_order_size) {
            Ok(a) => a,
            Err(_) => return Err(OnboardError::InvalidLimits),
        };
        if self.accounts.contains_key(&account_id) {
            return Err(OnboardError::AlreadyExists);
        }
        let ghost before = self@;
        let ghost entry = account@;
        self.accounts.insert(account_id, account);
        assert(self@ =~= before.insert(account_id, entry));
        Ok(())
    }

    /// A snapshot of one account, version included.
    pub fn read(&self, account_id: u32) -> (r: Option<AccountState>)
        requires
            self.wf(),
        ensures
            match r {
                Some(a) => self@.contains_key(account_id) && a@ == self@[account_id]
                    && a@.account_id == account_id && a@.limits_valid(),
                None => !self@.contains_key(account_id),
            },
    {
        match self.accounts.get(&account_id) {
            Some(a) => Some(a.snapshot()),
            None => None,
        }
    }

    /// Compare-and-swap: applies `m` only if the account is still at
    /// `expected_version`, and then advances the version by one.
    pub fn update(&mut self, account_id: u32, expected_version: u64, m: Mutation) -> (r: Result<
        u64,
        UpdateError,
    >)
        requires
            old(self).wf(),
        ensures
            final(self).wf(),
            r == update_outcome(old(self)@, account_id, expected_version, m),
            final(self)@ == updated(old(self)@, account_id, expected_version, m),
    {
        let current = match self.accounts.get(&account_id) {
            Some(a) => a,
            None => return Err(UpdateError::NotFound),
        };
        if current.version != expected_version {
            return Err(UpdateError::VersionConflict);
        }
        if expected_version == u64::MAX {
            return Err(UpdateError::VersionExhausted);
        }
        match m {
            Mutation::Limits { max_exposure, max_order_size } => {
                if max_exposure <= 0 || max_order_size == 0 {
                    return Err(UpdateError::InvalidLimits);
                }
            },
            Mutation::Fill { .. } => {},
        }
        let mut next = current.snapshot();
        next.apply(m);
        next.version = expected_version + 1;
        let ghost before = self@;
        let ghost entry = next@;
        assert(entry == AccountView { version: (expected_version + 1) as u64, ..mutated(before[account_id], m) });
        self.accounts.insert(account_id, next);
        assert(self@ =~= before.insert(account_id, entry));
        Ok(expected_version + 1)
    }
}

/// The demonstration account: id 101, exposure limit 100,000.00 and order
/// size limit 100 at baseline (amounts in the smallest currency unit),
/// onboarded with zero exposure.
pub fn setup_initial_account_state(store: &mut AccountStore) -> (r: Result<(), OnboardError>)
    requires
        old(store).wf(),
    ensures
        final(store).wf(),
        r == (if old(store)@.contains_key(101) {
            Err::<(), OnboardError>(OnboardError::AlreadyExists)
        } else {
            Ok(())
        }),
        final(store)@ == (if old(store)@.contains_key(101) {
            old(store)@
        } else {
            old(store)@.insert(
                101,
                AccountView {
                    account_id: 101,
                    base_max_exposure: 10_000_000,
                    base_max_order_size: 100,
                    current_max_exposure: 10_000_000,
                    current_max_order_size: 100,
                    current_exposure: 0,
                    positions: Map::empty(),
                    version: 0,
                },
            )
        }),
{
    store.onboard(101, 10_000_000, 100)
}

} // verus!
