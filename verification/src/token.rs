//! The Fungible Ledger: a total-supply-bounded balance map plus a
//! delegated-spending (allowance) map, mutated only by an authenticated
//! caller.
//!
//! Error handling keeps two classes apart. `InsufficientBalance` and
//! `InsufficientAllowance` are routine business conditions: the checked
//! amount exists but is too small. `MissingBalance`, `MissingAllowance` and
//! `NotAuthorized` stand for malformed usage — a lookup of an entry that was
//! never created, or spending against an allowance that was never granted —
//! which a hosted deployment would escalate to an aborted call rather than
//! hand back to the caller. Every error is produced before any map mutation
//! and before any event is appended, so a failed operation leaves the ledger
//! and the event channel exactly as they were.
//!
//! Missing-key semantics differ deliberately between operations: the queries
//! and the debit paths treat an absent entry as a fault, while crediting a
//! transfer recipient treats an absent entry as zero. Unifying the two would
//! change business behavior, so each operation documents its own choice.

use vstd::prelude::*;

use crate::store::{AllowanceStore, BalanceStore};
use crate::AccountId;

verus! {

/// Audit record of an allowance being set or spent.
#[derive(Clone, Copy, PartialEq, Eq, Structural, Debug)]
pub struct Approval {
    /// The account whose funds the allowance draws on.
    pub owner: AccountId,
    /// The account authorized to spend them.
    pub spender: AccountId,
    /// The allowance now in force.
    pub amount: u128,
}

/// Audit record of units moving between two accounts.
#[derive(Clone, Copy, PartialEq, Eq, Structural, Debug)]
pub struct Transfer {
    /// The debited account.
    pub from: AccountId,
    /// The credited account.
    pub to: AccountId,
    /// How many units moved.
    pub value: u128,
}

/// What the ledger appends to the event channel.
#[derive(Clone, Copy, PartialEq, Eq, Structural, Debug)]
pub enum TokenEvent {
    Approval(Approval),
    Transfer(Transfer),
}

/// Why a ledger operation was refused.
#[derive(Clone, Copy, PartialEq, Eq, Structural, Debug)]
pub enum TokenError {
    /// Business condition: the debited account holds fewer units than asked.
    InsufficientBalance,
    /// Business condition: the allowance in force is smaller than asked.
    InsufficientAllowance,
    /// Malformed usage: the account has no balance entry at all.
    MissingBalance,
    /// Malformed usage: the owner/spender pair has no allowance entry at all.
    MissingAllowance,
    /// Malformed usage: a delegated transfer without any granted allowance.
    NotAuthorized,
}

/// An account's balance in a map, an absent entry reading as zero.
pub open spec fn balance_or_zero(m: Map<AccountId, u128>, a: AccountId) -> u128 {
    if m.contains_key(a) {
        m[a]
    } else {
        0
    }
}

/// The balance map after moving `value` units from `from` to `to`: the debit
/// is exact (the callers check `value` against `from`'s balance first), the
/// credit treats an absent recipient as zero and clamps at the type bound.
pub open spec fn spec_transfer_balances(
    m: Map<AccountId, u128>,
    from: AccountId,
    to: AccountId,
    value: u128,
) -> Map<AccountId, u128> {
    let debited = m.insert(from, (m[from] - value) as u128);
    debited.insert(to, balance_or_zero(debited, to).saturating_add(value))
}

/// The Fungible Ledger.
pub struct Token {
    /// Fixed at construction; no balance is pre-assigned out of it.
    pub total_supply: u128,
    /// Account balances; entries are created lazily and never deleted.
    pub balances: BalanceStore,
    /// Delegated spending limits, keyed by (owner, spender).
    pub allowances: AllowanceStore,
}

impl Token {
    /// Both stores keep their keys distinct.
    pub open spec fn wf(self) -> bool {
        self.balances.wf() && self.allowances.wf()
    }

    /// What `balance_of` returns: fatal-class error on a missing entry, not
    /// an implicit zero.
    pub open spec fn spec_balance_of(self, owner: AccountId) -> Result<u128, TokenError> {
        if self.balances@.contains_key(owner) {
            Ok(self.balances@[owner])
        } else {
            Err(TokenError::MissingBalance)
        }
    }

    /// What `allowance` returns: fatal-class error on a missing entry.
    pub open spec fn spec_allowance(self, owner: AccountId, spender: AccountId) -> Result<
        u128,
        TokenError,
    > {
        if self.allowances@.contains_key((owner, spender)) {
            Ok(self.allowances@[(owner, spender)])
        } else {
            Err(TokenError::MissingAllowance)
        }
    }

    /// A ledger with the given fixed supply and no entries.
    pub fn new(total_supply: u128) -> (r: Token)
        ensures
            r.wf(),
            r.total_supply == total_supply,
            r.balances@ == Map::<AccountId, u128>::empty(),
            r.allowances@ == Map::<(AccountId, AccountId), u128>::empty(),
            r.balances.total() == 0,
    {
        Token { total_supply, balances: BalanceStore::new(), allowances: AllowanceStore::new() }
    }

    /// The fixed constructor value.
    pub fn total_supply(&self) -> (r: u128)
        ensures
            r == self.total_supply,
    {
        self.total_supply
    }

    /// The balance of `owner`; an account that never received an entry is a
    /// fault, not a zero.
    pub fn balance_of(&self, owner: AccountId) -> (r: Result<u128, TokenError>)
        requires
            self.wf(),
        ensures
            r == self.spec_balance_of(owner),
    {
        match self.balances.get(owner) {
            Some(b) => Ok(b),
            None => Err(TokenError::MissingBalance),
        }
    }

    /// The amount `spender` may still move out of `owner`'s account; a pair
    /// that was never approved is a fault.
    pub fn allowance(&self, owner: AccountId, spender: AccountId) -> (r: Result<
        u128,
        TokenError,
    >)
        requires
            self.wf(),
        ensures
            r == self.spec_allowance(owner, spender),
    {
        match self.allowances.get(owner, spender) {
            Some(a) => Ok(a),
            None => Err(TokenError::MissingAllowance),
        }
    }

    /// Set the caller's allowance for `spender` to `amount` outright: no
    /// balance check, always succeeds. Deliberately appends no `Approval`
    /// record, unlike the delegated-transfer path; the asymmetry is kept as
    /// observed behavior and flagged here for product owners.
    pub fn approve(&mut self, caller: AccountId, spender: AccountId, amount: u128) -> (r: Result<
        (),
        TokenError,
    >)
        requires
            old(self).wf(),
        ensures
            final(self).wf(),
            r == Ok::<(), TokenError>(()),
            final(self).allowances@ == old(self).allowances@.insert((caller, spender), amount),
            final(self).balances == old(self).balances,
            final(self).total_supply == old(self).total_supply,
    {
        self.allowances.insert(caller, spender, amount);
        Ok(())
    }

    /// Raise the caller's allowance for `spender` by `by`, clamping at the
    /// type bound; the pair must already hold an entry.
    pub fn increase_allowance(
        &mut self,
        caller: AccountId,
        spender: AccountId,
        by: u128,
    ) -> (r: Result<(), TokenError>)
        requires
            old(self).wf(),
        ensures
            final(self).wf(),
            final(self).balances == old(self).balances,
            final(self).total_supply == old(self).total_supply,
            r is Ok <==> old(self).allowances@.contains_key((caller, spender)),
            r is Err ==> r == Err::<(), TokenError>(TokenError::MissingAllowance) && *final(self)
                == *old(self),
            r is Ok ==> final(self).allowances@ == old(self).allowances@.insert(
                (caller, spender),
                old(self).allowances@[(caller, spender)].saturating_add(by),
            ),
    {
        let prev: u128 = match self.allowances.get(caller, spender) {
            Some(a) => a,
            None => {
                return Err(TokenError::MissingAllowance);
            },
        };
        self.allowances.insert(caller, spender, prev.saturating_add(by));
        Ok(())
    }

    /// Lower the caller's allowance for `spender` by `by`, clamping at zero;
    /// the pair must already hold an entry.
    pub fn decrease_allowance(
        &mut self,
        caller: AccountId,
        spender: AccountId,
        by: u128,
    ) -> (r: Result<(), TokenError>)
        requires
            old(self).wf(),
        ensures
            final(self).wf(),
            final(self).balances == old(self).balances,
            final(self).total_supply == old(self).total_supply,
            r is Ok <==> old(self).allowances@.contains_key((caller, spender)),
            r is Err ==> r == Err::<(), TokenError>(TokenError::MissingAllowance) && *final(self)
                == *old(self),
            r is Ok ==> final(self).allowances@ == old(self).allowances@.insert(
                (caller, spender),
                old(self).allowances@[(caller, spender)].saturating_sub(by),
            ),
    {
        let prev: u128 = match self.allowances.get(caller, spender) {
            Some(a) => a,
            None => {
                return Err(TokenError::MissingAllowance);
            },
        };
        self.allowances.insert(caller, spender, prev.saturating_sub(by));
        Ok(())
    }

    /// Move `value` units from the caller to `to`. The caller must hold an
    /// entry (a fault otherwise) covering `value`; the recipient's missing
    /// entry reads as zero. The `_data` payload is accepted but not
    /// interpreted. On success the sum of all balances does not grow, and a
    /// `Transfer` record is appended; on failure nothing changes and nothing
    /// is appended.
    pub fn transfer(
        &mut self,
        caller: AccountId,
        to: AccountId,
        value: u128,
        _data: Vec<u8>,
        events: &mut Vec<TokenEvent>,
    ) -> (r: Result<(), TokenError>)
        requires
            old(self).wf(),
        ensures
            final(self).wf(),
            final(self).total_supply == old(self).total_supply,
            final(self).allowances == old(self).allowances,
            r == Err::<(), TokenError>(TokenError::MissingBalance) <==> !old(
                self,
            ).balances@.contains_key(caller),
            r == Err::<(), TokenError>(TokenError::InsufficientBalance) <==> (old(
                self,
            ).balances@.contains_key(caller) && old(self).balances@[caller] < value),
            r is Ok <==> (old(self).balances@.contains_key(caller) && old(self).balances@[caller]
                >= value),
            r is Err ==> *final(self) == *old(self) && final(events)@ == old(events)@,
            r is Ok ==> final(self).balances@ == spec_transfer_balances(
                old(self).balances@,
                caller,
                to,
                value,
            ),
            r is Ok ==> final(events)@ == old(events)@.push(
                TokenEvent::Transfer(Transfer { from: caller, to, value }),
            ),
            r is Ok ==> final(self).balances.total() <= old(self).balances.total(),
            r is Ok && old(self).balances.total() <= u128::MAX ==> final(self).balances.total()
                == old(self).balances.total(),
            r is Ok && caller != to && old(self).balances.total() <= u128::MAX
                ==> final(self).balances@[to] == balance_or_zero(old(self).balances@, to) + value,
            r is Ok && caller != to ==> final(self).balances@[caller] == old(
                self,
            ).balances@[caller] - value,
            r is Ok && caller == to ==> final(self).balances@[caller] == old(
                self,
            ).balances@[caller],
            r is Ok && caller != to && balance_or_zero(old(self).balances@, to) + value
                <= u128::MAX ==> final(self).balances@[to] == balance_or_zero(
                old(self).balances@,
                to,
            ) + value,
    {
        let bal: u128 = match self.balances.get(caller) {
            Some(b) => b,
            None => {
                return Err(TokenError::MissingBalance);
            },
        };
        if bal < value {
            return Err(TokenError::InsufficientBalance);
        }
        self.balances.insert(caller, bal - value);
        let to_before: u128 = match self.balances.get(to) {
            Some(b) => b,
            None => 0,
        };
        proof {
            // While the total fits the type, the credit below cannot clamp:
            // the debited and credited balances together stay under it.
            if old(self).balances.total() <= u128::MAX && to != caller {
                if old(self).balances@.contains_key(to) {
                    old(self).balances.lemma_total_covers_pair(caller, to);
                } else {
                    old(self).balances.lemma_total_covers(caller);
                }
            }
        }
        self.balances.insert(to, to_before.saturating_add(value));
        events.push(TokenEvent::Transfer(Transfer { from: caller, to, value }));
        Ok(())
    }

    /// Move `value` units from `from` to `to` on the strength of the
    /// allowance granted to the caller. An ungranted pair is a fault; an
    /// allowance or balance that exists but is too small is a business error;
    /// `from` without a balance entry is a fault. On success the allowance
    /// shrinks by exactly `value` and — deliberately — an `Approval` record
    /// carrying the reduced allowance is appended, not a `Transfer` record;
    /// that mismatch is kept as observed behavior and flagged here for
    /// product owners to confirm before it is ever changed.
    pub fn transfer_from(
        &mut self,
        caller: AccountId,
        from: AccountId,
        to: AccountId,
        value: u128,
        _data: Vec<u8>,
        events: &mut Vec<TokenEvent>,
    ) -> (r: Result<(), TokenError>)
        requires
            old(self).wf(),
        ensures
            final(self).wf(),
            final(self).total_supply == old(self).total_supply,
            r == Err::<(), TokenError>(TokenError::NotAuthorized) <==> !old(
                self,
            ).allowances@.contains_key((from, caller)),
            r == Err::<(), TokenError>(TokenError::InsufficientAllowance) <==> (old(
                self,
            ).allowances@.contains_key((from, caller)) && old(self).allowances@[(from, caller)]
                < value),
            r == Err::<(), TokenError>(TokenError::MissingBalance) <==> (old(
                self,
            ).allowances@.contains_key((from, caller)) && old(self).allowances@[(from, caller)]
                >= value && !old(self).balances@.contains_key(from)),
            r == Err::<(), TokenError>(TokenError::InsufficientBalance) <==> (old(
                self,
            ).allowances@.contains_key((from, caller)) && old(self).allowances@[(from, caller)]
                >= value && old(self).balances@.contains_key(from) && old(self).balances@[from]
                < value),
            r is Ok <==> (old(self).allowances@.contains_key((from, caller)) && old(
                self,
            ).allowances@[(from, caller)] >= value && old(self).balances@.contains_key(from)
                && old(self).balances@[from] >= value),
            r is Err ==> *final(self) == *old(self) && final(events)@ == old(events)@,
            r is Ok ==> final(self).allowances@ == old(self).allowances@.insert(
                (from, caller),
                (old(self).allowances@[(from, caller)] - value) as u128,
            ),
            r is Ok ==> final(self).balances@ == spec_transfer_balances(
                old(self).balances@,
                from,
                to,
                value,
            ),
            r is Ok ==> final(events)@ == old(events)@.push(
                TokenEvent::Approval(
                    Approval {
                        owner: from,
                        spender: caller,
                        amount: (old(self).allowances@[(from, caller)] - value) as u128,
                    },
                ),
            ),
            r is Ok ==> final(self).balances.total() <= old(self).balances.total(),
            r is Ok && old(self).balances.total() <= u128::MAX ==> final(self).balances.total()
                == old(self).balances.total(),
            r is Ok && from != to && old(self).balances.total() <= u128::MAX
                ==> final(self).balances@[to] == balance_or_zero(old(self).balances@, to) + value,
            r is Ok ==> final(self).allowances@[(from, caller)] == old(self).allowances@[(
                from,
                caller,
            )] - value,
            r is Ok && from != to ==> final(self).balances@[from] == old(self).balances@[from]
                - value,
            r is Ok && from != to && balance_or_zero(old(self).balances@, to) + value <= u128::MAX
                ==> final(self).balances@[to] == balance_or_zero(old(self).balances@, to) + value,
    {
        let granted: u128 = match self.allowances.get(from, caller) {
            Some(a) => a,
            None => {
                return Err(TokenError::NotAuthorized);
            },
        };
        if granted < value {
            return Err(TokenError::InsufficientAllowance);
        }
        let bal: u128 = match self.balances.get(from) {
            Some(b) => b,
            None => {
                return Err(TokenError::MissingBalance);
            },
        };
        if bal < value {
            return Err(TokenError::InsufficientBalance);
        }
        self.allowances.insert(from, caller, granted - value);
        self.balances.insert(from, bal - value);
        let to_before: u128 = match self.balances.get(to) {
            Some(b) => b,
            None => 0,
        };
        proof {
            // While the total fits the type, the credit below cannot clamp:
            // the debited and credited balances together stay under it.
            if old(self).balances.total() <= u128::MAX && to != from {
                if old(self).balances@.contains_key(to) {
                    old(self).balances.lemma_total_covers_pair(from, to);
                } else {
                    old(self).balances.lemma_total_covers(from);
                }
            }
        }
        self.balances.insert(to, to_before.saturating_add(value));
        events.push(
            TokenEvent::Approval(
                Approval { owner: from, spender: caller, amount: granted - value },
            ),
        );
        Ok(())
    }
}

proof fn lemma_totals_monotone(totals: Seq<int>, i: int)
    requires
        0 <= i < totals.len(),
        forall|j: int| 0 < j < totals.len() ==> #[trigger] totals[j] <= totals[j - 1],
    ensures
        totals[i] <= totals[0],
    decreases i,
{
    if i > 0 {
        lemma_totals_monotone(totals, i - 1);
    }
}

/// Conservation: every successful `transfer` and `transfer_from` ensures that
/// the sum of all balances does not grow (each debit is exact and each credit
/// adds at most what was debited), and balances are unsigned, so none goes
/// below zero. Hence along any sequence of successful transfers — `totals`
/// being the running sums of all balances — a ledger that starts within its
/// fixed supply stays within it.
pub proof fn lemma_conservation(totals: Seq<int>, supply: int)
    requires
        totals.len() > 0,
        totals[0] <= supply,
        forall|j: int| 0 < j < totals.len() ==> #[trigger] totals[j] <= totals[j - 1],
    ensures
        forall|i: int| 0 <= i < totals.len() ==> totals[i] <= supply,
{
    assert forall|i: int| 0 <= i < totals.len() implies totals[i] <= supply by {
        lemma_totals_monotone(totals, i);
    }
}

/// Idempotent queries: each query's result is a function of the ledger value
/// alone, and the queries borrow the ledger immutably, so repeated calls with
/// no intervening mutation return identical results.
pub proof fn lemma_token_queries_idempotent(
    t: Token,
    owner: AccountId,
    spender: AccountId,
    b1: Result<u128, TokenError>,
    b2: Result<u128, TokenError>,
    a1: Result<u128, TokenError>,
    a2: Result<u128, TokenError>,
    s1: u128,
    s2: u128,
)
    requires
        b1 == t.spec_balance_of(owner),
        b2 == t.spec_balance_of(owner),
        a1 == t.spec_allowance(owner, spender),
        a2 == t.spec_allowance(owner, spender),
        s1 == t.total_supply,
        s2 == t.total_supply,
    ensures
        b1 == b2,
        a1 == a2,
        s1 == s2,
{
}

} // verus!
