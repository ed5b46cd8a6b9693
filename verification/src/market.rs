//! The Resource Pool: three named resource counters plus a per-account
//! credit balance. Contributing raises one counter and the contributor's
//! credit; withdrawing lowers one counter and the caller's credit. Credit is
//! a fungible claim: a unit earned by contributing one kind may be redeemed
//! as any other, which is the pool's trust model — contributors are repaid
//! in whichever resource they need, not necessarily the one they gave.
//!
//! Unlike the token ledger's queries, a missing credit entry reads as zero;
//! the difference is a deliberate per-operation choice, not an oversight.
//! Every error is produced before any mutation and before any event is
//! appended, and the resource check comes before the credit check, so a
//! caller with ample credit facing an empty pool sees the resource error.

use vstd::prelude::*;

use crate::store::CreditStore;
use crate::AccountId;

verus! {

/// The three resources the pool stocks.
#[derive(Clone, Copy, PartialEq, Eq, Structural, Debug)]
pub enum Resource {
    Food,
    Water,
    Wood,
}

/// Why a pool operation was refused.
#[derive(Clone, Copy, PartialEq, Eq, Structural, Debug)]
pub enum Error {
    /// The caller's credit does not cover the requested amount.
    InsufficientCredits,
    /// The pool stocks less of the requested resource than asked.
    InsufficientResources,
}

/// Audit record of a contribution.
#[derive(Clone, Copy, PartialEq, Eq, Structural, Debug)]
pub struct ContributionReceived {
    /// The account which contributed the resource.
    pub sender: AccountId,
    /// How much it contributed.
    pub amount: u64,
    /// What kind of resource it contributed.
    pub resource: Resource,
    /// The pool's new level of that resource.
    pub total_resource_available: u64,
    /// The contributor's new total credit.
    pub total_credits_available: u64,
}

/// Audit record of a withdrawal.
#[derive(Clone, Copy, PartialEq, Eq, Structural, Debug)]
pub struct ResourceWithdrawn {
    /// The account which withdrew the resource.
    pub sender: AccountId,
    /// How much it withdrew.
    pub amount: u64,
    /// What kind of resource it withdrew.
    pub resource: Resource,
    /// The pool's new level of that resource.
    pub total_resource_available: u64,
    /// The caller's new total credit.
    pub total_credits_available: u64,
}

/// What the pool appends to the event channel.
#[derive(Clone, Copy, PartialEq, Eq, Structural, Debug)]
pub enum MarketEvent {
    ContributionReceived(ContributionReceived),
    ResourceWithdrawn(ResourceWithdrawn),
}

/// The Resource Pool.
pub struct ResourceMarket {
    /// The amount of food currently available in the pool.
    pub food: u64,
    /// The amount of water currently available in the pool.
    pub water: u64,
    /// The amount of wood currently available in the pool.
    pub wood: u64,
    /// Each account's redeemable claim against the pool; entries are created
    /// lazily and a missing entry reads as zero.
    pub credits: CreditStore,
}

impl ResourceMarket {
    /// The credit store keeps its keys distinct.
    pub open spec fn wf(self) -> bool {
        self.credits.wf()
    }

    /// The pool's current level of one resource kind.
    pub open spec fn spec_level(self, kind: Resource) -> u64 {
        match kind {
            Resource::Food => self.food,
            Resource::Water => self.water,
            Resource::Wood => self.wood,
        }
    }

    /// An account's credit, a missing entry reading as zero.
    pub open spec fn credit_of(self, a: AccountId) -> u64 {
        if self.credits@.contains_key(a) {
            self.credits@[a]
        } else {
            0
        }
    }

    /// When a withdrawal goes through: the pool stocks enough of the
    /// requested kind and the caller's total credit covers the amount —
    /// nothing else enters into it.
    pub open spec fn withdraw_allowed(self, caller: AccountId, amount: u64, kind: Resource) -> bool {
        self.spec_level(kind) >= amount && self.credit_of(caller) >= amount
    }

    /// A pool with the given initial levels and no credit entries.
    pub fn new(food: u64, water: u64, wood: u64) -> (r: ResourceMarket)
        ensures
            r.wf(),
            r.food == food,
            r.water == water,
            r.wood == wood,
            r.credits@ == Map::<AccountId, u64>::empty(),
    {
        ResourceMarket { food, water, wood, credits: CreditStore::new() }
    }

    /// Add `amount` of one resource to the pool and the same amount to the
    /// caller's credit, both clamped at the type bound; always succeeds, and
    /// appends a record carrying the new level and the new total credit.
    pub fn contribute(
        &mut self,
        caller: AccountId,
        amount: u64,
        kind: Resource,
        events: &mut Vec<MarketEvent>,
    ) -> (r: Result<(), Error>)
        requires
            old(self).wf(),
        ensures
            final(self).wf(),
            r == Ok::<(), Error>(()),
            final(self).spec_level(kind) == old(self).spec_level(kind).saturating_add(amount),
            old(self).spec_level(kind) + amount <= u64::MAX ==> final(self).spec_level(kind)
                == old(self).spec_level(kind) + amount,
            kind != Resource::Food ==> final(self).food == old(self).food,
            kind != Resource::Water ==> final(self).water == old(self).water,
            kind != Resource::Wood ==> final(self).wood == old(self).wood,
            final(self).credits@ == old(self).credits@.insert(
                caller,
                old(self).credit_of(caller).saturating_add(amount),
            ),
            final(events)@ == old(events)@.push(
                MarketEvent::ContributionReceived(
                    ContributionReceived {
                        sender: caller,
                        amount,
                        resource: kind,
                        total_resource_available: old(self).spec_level(kind).saturating_add(
                            amount,
                        ),
                        total_credits_available: old(self).credit_of(caller).saturating_add(
                            amount,
                        ),
                    },
                ),
            ),
    {
        let level: u64 = match kind {
            Resource::Food => self.food,
            Resource::Water => self.water,
            Resource::Wood => self.wood,
        };
        let new_level: u64 = level.saturating_add(amount);
        match kind {
            Resource::Food => {
                self.food = new_level;
            },
            Resource::Water => {
                self.water = new_level;
            },
            Resource::Wood => {
                self.wood = new_level;
            },
        }
        let prev_credit: u64 = match self.credits.get(caller) {
            Some(c) => c,
            None => 0,
        };
        let new_credit: u64 = prev_credit.saturating_add(amount);
        self.credits.insert(caller, new_credit);
        events.push(
            MarketEvent::ContributionReceived(
                ContributionReceived {
                    sender: caller,
                    amount,
                    resource: kind,
                    total_resource_available: new_level,
                    total_credits_available: new_credit,
                },
            ),
        );
        Ok(())
    }

    /// Take `amount` of one resource out of the pool against the caller's
    /// credit. The pool's stock is checked before the caller's credit, so
    /// with both lacking the resource error wins. On success the level and
    /// the credit each drop by exactly `amount` and a record carrying the
    /// new level and new credit is appended; on failure nothing changes and
    /// nothing is appended.
    pub fn withdraw(
        &mut self,
        caller: AccountId,
        amount: u64,
        kind: Resource,
        events: &mut Vec<MarketEvent>,
    ) -> (r: Result<(), Error>)
        requires
            old(self).wf(),
        ensures
            final(self).wf(),
            r is Ok <==> old(self).withdraw_allowed(caller, amount, kind),
            r == Err::<(), Error>(Error::InsufficientResources) <==> old(self).spec_level(kind)
                < amount,
            r == Err::<(), Error>(Error::InsufficientCredits) <==> (old(self).spec_level(kind)
                >= amount && old(self).credit_of(caller) < amount),
            r is Err ==> *final(self) == *old(self) && final(events)@ == old(events)@,
            r is Ok ==> final(self).spec_level(kind) == old(self).spec_level(kind) - amount,
            r is Ok && kind != Resource::Food ==> final(self).food == old(self).food,
            r is Ok && kind != Resource::Water ==> final(self).water == old(self).water,
            r is Ok && kind != Resource::Wood ==> final(self).wood == old(self).wood,
            r is Ok ==> final(self).credits@ == old(self).credits@.insert(
                caller,
                (old(self).credit_of(caller) - amount) as u64,
            ),
            r is Ok ==> final(events)@ == old(events)@.push(
                MarketEvent::ResourceWithdrawn(
                    ResourceWithdrawn {
                        sender: caller,
                        amount,
                        resource: kind,
                        total_resource_available: (old(self).spec_level(kind) - amount) as u64,
                        total_credits_available: (old(self).credit_of(caller) - amount) as u64,
                    },
                ),
            ),
    {
        let level: u64 = match kind {
            Resource::Food => self.food,
            Resource::Water => self.water,
            Resource::Wood => self.wood,
        };
        if level < amount {
            return Err(Error::InsufficientResources);
        }
        let caller_credits: u64 = match self.credits.get(caller) {
            Some(c) => c,
            None => 0,
        };
        if caller_credits < amount {
            return Err(Error::InsufficientCredits);
        }
        let new_level: u64 = level - amount;
        match kind {
            Resource::Food => {
                self.food = new_level;
            },
            Resource::Water => {
                self.water = new_level;
            },
            Resource::Wood => {
                self.wood = new_level;
            },
        }
        let new_credit: u64 = caller_credits - amount;
        self.credits.insert(caller, new_credit);
        events.push(
            MarketEvent::ResourceWithdrawn(
                ResourceWithdrawn {
                    sender: caller,
                    amount,
                    resource: kind,
                    total_resource_available: new_level,
                    total_credits_available: new_credit,
                },
            ),
        );
        Ok(())
    }

    /// The pool's current level of one resource kind; never fails, since all
    /// three counters exist from construction on.
    pub fn get_resource(&self, kind: Resource) -> (r: Result<u64, Error>)
        ensures
            r == Ok::<u64, Error>(self.spec_level(kind)),
    {
        match kind {
            Resource::Food => Ok(self.food),
            Resource::Water => Ok(self.water),
            Resource::Wood => Ok(self.wood),
        }
    }
}

/// Credit fungibility: whether a withdrawal may proceed depends only on the
/// pool's stock of the requested kind and on the caller's total credit —
/// never on which kinds earned that credit, nor on the other levels. Two
/// pools agreeing on those two numbers admit exactly the same withdrawal.
pub proof fn lemma_credit_fungibility(
    m1: ResourceMarket,
    m2: ResourceMarket,
    caller: AccountId,
    amount: u64,
    kind: Resource,
)
    requires
        m1.spec_level(kind) == m2.spec_level(kind),
        m1.credit_of(caller) == m2.credit_of(caller),
    ensures
        m1.withdraw_allowed(caller, amount, kind) == m2.withdraw_allowed(caller, amount, kind),
{
}

/// Resource conservation: a pool level only ever moves by the exact amount a
/// single operation names — up by a contribution (clamped at the type
/// bound), down by a covered withdrawal — so along any sequence of
/// operations each level stays the running total of its initial stock and
/// the amounts moved, and a withdrawal never drives a level below zero.
pub proof fn lemma_level_step_bounds(before: u64, after: u64, amount: u64, withdrew: bool)
    requires
        withdrew ==> before >= amount && after == before - amount,
        !withdrew ==> after == before.saturating_add(amount),
    ensures
        withdrew ==> after <= before && before - after == amount,
        !withdrew ==> after >= before,
        !withdrew && before + amount <= u64::MAX ==> after - before == amount,
{
}

/// Idempotent queries: `get_resource` is a function of the pool value alone
/// and borrows the pool immutably, so repeated calls with no intervening
/// mutation return identical results.
pub proof fn lemma_market_query_idempotent(
    m: ResourceMarket,
    kind: Resource,
    r1: Result<u64, Error>,
    r2: Result<u64, Error>,
)
    requires
        r1 == Ok::<u64, Error>(m.spec_level(kind)),
        r2 == Ok::<u64, Error>(m.spec_level(kind)),
    ensures
        r1 == r2,
{
}

} // verus!
