//! Two independent account-keyed ledgers that track conserved quantities under
//! caller-authenticated mutation.
//!
//! - [`token::Token`] is a total-supply-bounded balance map together with a
//!   delegated-spending (allowance) map.
//! - [`market::ResourceMarket`] is a pool of three named resource counters
//!   together with a per-account credit balance.
//!
//! Both sit on the same primitive, the keyed balance store of [`store`]: a
//! mapping from a key to an unsigned integer with get-or-default and checked
//! replacement.
//!
//! The hosting environment is an external collaborator: it authenticates the
//! caller, persists the ledger value between calls, and carries emitted audit
//! records to observers. Every operation therefore takes the caller identity
//! as an explicit argument, and the mutating operations append their audit
//! records to an explicit event channel, so the ledgers are pure functions of
//! their explicit inputs.

use vstd::prelude::*;

pub mod market;
pub mod store;
pub mod token;

verus! {

/// An opaque, comparable account identifier. Nothing is assumed of it beyond
/// equality and use as a map key, so a plain unsigned integer stands for it.
pub type AccountId = u128;

} // verus!
