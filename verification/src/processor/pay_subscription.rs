//! Payment accrual: moving one period's price into escrow.
//!
//! The transition validates the escrow account's safety (owned by the
//! subscription identifier, no standing delegate, no standing close
//! authority) and the payer's balance, then increases the
//! cumulative-paid counter by the price and extends the paid-through
//! timestamp by one period.  The host performs the actual transfer of
//! exactly `price` units between the validation and the commit, and
//! persists the returned record only when the transfer succeeded.

use vstd::prelude::*;

use crate::errors::SubscriptionError;
use crate::identity::Address;
use crate::processor::{RecordView, SubscriptionData, TokenAccountState};

verus! {

/// Arguments of the payment transition.
#[derive(Debug)]
pub struct PaySubscriptionArgs {
    /// The resource the subscription is bound to.
    pub resource: Address,
}

/// The record after one successful payment at time `now`, or `None` when
/// the accrual would overflow.
///
/// The cumulative-paid counter grows by exactly the price.  The
/// paid-through timestamp branches: a lapsed subscription
/// (`paid_until < now`) restarts the clock from `now`, a still-active one
/// extends from its current expiry, so pre-payment of future periods
/// accumulates.
pub open spec fn pay_transition(r: RecordView, now: i64) -> Option<RecordView> {
    if r.total_paid + r.price > u64::MAX {
        None
    } else if r.period_duration > i64::MAX {
        None
    } else {
        let extended: int = if r.paid_until < now {
            now + r.period_duration
        } else {
            r.paid_until + r.period_duration
        };
        if extended > i64::MAX {
            None
        } else {
            Some(
                RecordView {
                    total_paid: (r.total_paid + r.price) as u64,
                    paid_until: extended as i64,
                    ..r
                },
            )
        }
    }
}

/// Accrue one payment into the subscription.
///
/// `subscription_key` is the identifier the record is stored at;
/// `escrow` is the state of the escrow token account the host read from
/// the custody service; `payer_balance` is the balance of the payer's
/// funding account; `now` is the current time read from the time oracle.
///
/// On success the returned record is exactly [`pay_transition`] applied
/// to the old one; the host must move exactly `price` units from the
/// funding source into escrow before persisting it, and discard it if
/// the transfer fails.
///
/// Errors, in checking order: `FundsTokenAccountOwnerMismatch` when the
/// escrow account is not owned by the subscription identifier,
/// `DelegateShouldBeNone` and `CloseAuthorityShouldBeNone` when a third
/// party could redirect or reclaim escrowed funds, `BalanceTooLow` when
/// the funding source holds less than the price, and
/// `NumericalOverflowError` when the accrual or the period extension
/// would overflow.
pub fn pay_subscription(
    subscription: &SubscriptionData,
    subscription_key: &Address,
    escrow: &TokenAccountState,
    payer_balance: u64,
    now: i64,
) -> (r: Result<SubscriptionData, SubscriptionError>)
    requires
        subscription@.wf(),
    ensures
        (match r {
            Ok(record) => {
                &&& escrow.owner@ == subscription_key@
                &&& !escrow.has_delegate
                &&& !escrow.has_close_authority
                &&& payer_balance >= subscription.price
                &&& Some(record@) == pay_transition(subscription@, now)
                &&& record@.wf()
            },
            Err(e) => {
                ||| (escrow.owner@ != subscription_key@ && e
                    == SubscriptionError::FundsTokenAccountOwnerMismatch)
                ||| (escrow.owner@ == subscription_key@ && escrow.has_delegate && e
                    == SubscriptionError::DelegateShouldBeNone)
                ||| (escrow.owner@ == subscription_key@ && !escrow.has_delegate
                    && escrow.has_close_authority && e
                    == SubscriptionError::CloseAuthorityShouldBeNone)
                ||| (escrow.owner@ == subscription_key@ && !escrow.has_delegate
                    && !escrow.has_close_authority && payer_balance < subscription.price && e
                    == SubscriptionError::BalanceTooLow)
                ||| (escrow.owner@ == subscription_key@ && !escrow.has_delegate
                    && !escrow.has_close_authority && payer_balance >= subscription.price
                    && pay_transition(subscription@, now) is None && e
                    == SubscriptionError::NumericalOverflowError)
            },
        }),
{
    // The account holding the escrowed tokens must be owned by the
    // subscription identifier itself, not by an external party.
    if !(escrow.owner == *subscription_key) {
        return Err(SubscriptionError::FundsTokenAccountOwnerMismatch);
    }

    // A standing delegate or close authority could drain the escrow.
    if escrow.has_delegate {
        return Err(SubscriptionError::DelegateShouldBeNone);
    }
    if escrow.has_close_authority {
        return Err(SubscriptionError::CloseAuthorityShouldBeNone);
    }

    // The funding source must cover one period's price.
    if payer_balance < subscription.price {
        return Err(SubscriptionError::BalanceTooLow);
    }

    let new_total = match subscription.total_paid.checked_add(subscription.price) {
        Some(t) => t,
        None => {
            return Err(SubscriptionError::NumericalOverflowError);
        },
    };

    if subscription.period_duration > i64::MAX as u64 {
        return Err(SubscriptionError::NumericalOverflowError);
    }
    let period = subscription.period_duration as i64;

    let new_paid_until = if subscription.paid_until < now {
        // The subscription had lapsed: restart the clock from now.
        match now.checked_add(period) {
            Some(t) => t,
            None => {
                return Err(SubscriptionError::NumericalOverflowError);
            },
        }
    } else {
        // Still active: extend from the current expiry.
        match subscription.paid_until.checked_add(period) {
            Some(t) => t,
            None => {
                return Err(SubscriptionError::NumericalOverflowError);
            },
        }
    };

    let record = SubscriptionData {
        token_mint: subscription.token_mint.clone(),
        owners: copy_owners(&subscription.owners),
        total_paid: new_total,
        price: subscription.price,
        period_duration: subscription.period_duration,
        paid_until: new_paid_until,
    };
    proof {
        assert(record@.owners =~= subscription@.owners);
        crate::processor::lemma_entitlements_grow(subscription@, record@);
    }
    Ok(record)
}

/// Copy a co-owner list unchanged.
fn copy_owners(owners: &Vec<crate::processor::OwnerEntry>) -> (r: Vec<
    crate::processor::OwnerEntry,
>)
    ensures
        r@.map_values(|o: crate::processor::OwnerEntry| o@) == owners@.map_values(
            |o: crate::processor::OwnerEntry| o@,
        ),
{
    let mut r: Vec<crate::processor::OwnerEntry> = Vec::new();
    let mut i: usize = 0;
    while i < owners.len()
        invariant
            i <= owners@.len(),
            r@.len() == i,
            forall|j: int| 0 <= j < i ==> (#[trigger] r@[j])@ == owners@[j]@,
        decreases owners@.len() - i,
    {
        r.push(owners[i].clone());
        i = i + 1;
    }
    proof {
        assert(r@.map_values(|o: crate::processor::OwnerEntry| o@) =~= owners@.map_values(
            |o: crate::processor::OwnerEntry| o@,
        ));
    }
    r
}

} // verus!
