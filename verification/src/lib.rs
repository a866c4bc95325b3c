//! An on-ledger escrow and revenue-sharing library.
//!
//! A resource owner (or a group of up to five co-owners) registers a
//! subscription-bound escrow record, payers periodically deposit a fixed
//! price into it, and co-owners withdraw their proportional share of the
//! accumulated funds over time.
//!
//! The core of the library is the subscription-record state machine with
//! its three transitions: creation, payment accrual, and proportional
//! withdrawal.  Each transition is a pure, verified function from the old
//! record (and the values read from the surrounding ledger) to either the
//! new record or a specific error; the surrounding host performs the
//! actual value transfers and persists the record only when the
//! transition succeeded.

use vstd::prelude::*;

pub mod errors;
pub mod identity;
pub mod instruction;
pub mod laws;
pub mod processor;
pub mod serialization;

verus! {

/// Namespace tag used in subscription identifier derivations, to avoid
/// collisions with identifiers derived by other programs.
pub const PREFIX: &'static str = "sub";

} // verus!
