//! Proportional withdrawal of accrued funds by a registered co-owner.
//!
//! The withdrawal engine locates the withdrawer among the record's
//! owners, computes their lifetime entitlement from their share and the
//! cumulative-paid counter (rounding down), subtracts what they have
//! already withdrawn, and releases at most that difference.  The host
//! performs the actual transfer between the validation and the commit,
//! and persists the returned record only when the transfer succeeded.

use vstd::prelude::*;

use crate::errors::SubscriptionError;
use crate::identity::{derived_identifier, prefix_seed, Address};
use crate::processor::{
    entitlement, is_owner, lemma_owner_index, owner_index, OwnerEntry, OwnerView, RecordView,
    SubscriptionData, TokenAccountState,
};

verus! {

/// Arguments of the withdrawal transition.
#[derive(Debug)]
pub struct WithdrawFundsArgs {
    /// The resource the subscription is bound to.
    pub resource: Address,
    /// The amount the co-owner asks to withdraw.
    pub amount: u64,
}

/// The record after `withdrawer` successfully withdraws `amount`, or
/// `None` when the withdrawer is no owner, the amount exceeds what their
/// share still entitles them to, or the bookkeeping would overflow.
pub open spec fn withdraw_transition(r: RecordView, withdrawer: Seq<u8>, amount: u64) -> Option<
    RecordView,
> {
    let index = owner_index(r.owners, withdrawer);
    if index < 0 {
        None
    } else {
        let owner = r.owners[index];
        if amount > entitlement(r.total_paid, owner.share) - owner.withdrawn {
            None
        } else if owner.withdrawn + amount > u64::MAX {
            None
        } else {
            Some(
                RecordView {
                    owners: r.owners.update(
                        index,
                        OwnerView { withdrawn: (owner.withdrawn + amount) as u64, ..owner },
                    ),
                    ..r
                },
            )
        }
    }
}

/// Release part of a co-owner's entitlement from escrow.
///
/// `subscription_key` is the identifier the record is stored at;
/// `escrow` is the state of the escrow token account the host read from
/// the custody service; `mint` is the value-type reference the caller
/// supplied; `withdrawer` is the co-owner asking to withdraw
/// `args.amount`.  On success the returned record has exactly
/// `args.amount` added to the withdrawer's cumulative withdrawal, and
/// the returned bump authorizes the host's transfer out of escrow; the
/// host persists the record only when that transfer succeeded.
///
/// Errors, in checking order: `FundsTokenAccountOwnerMismatch` when the
/// escrow account is not owned by the subscription identifier,
/// `DerivedKeyInvalid` when the identifier does not match the derivation
/// for the resource, `IncorrectMint` when the supplied value-type
/// reference differs from the record's, `WithdrawerIsNotAnOwner` when
/// the withdrawer is absent from the owner list,
/// `WithdrawalOverMaxAllowed` when the requested amount exceeds the
/// withdrawer's remaining entitlement, and `NumericalOverflowError` when
/// the bookkeeping would overflow.
pub fn withdraw_funds(
    program_id: &Address,
    subscription_key: &Address,
    subscription: &SubscriptionData,
    escrow: &TokenAccountState,
    mint: &Address,
    withdrawer: &Address,
    args: &WithdrawFundsArgs,
) -> (r: Result<(SubscriptionData, u8), SubscriptionError>)
    requires
        program_id.wf(),
        args.resource.wf(),
        subscription@.wf(),
    ensures
        (match r {
            Ok((record, bump)) => {
                &&& escrow.owner@ == subscription_key@
                &&& derived_identifier(prefix_seed(), program_id@, args.resource@) == Some((
                    subscription_key@,
                    bump,
                ))
                &&& subscription@.token_mint == mint@
                &&& is_owner(subscription@.owners, withdrawer@)
                &&& Some(record@) == withdraw_transition(subscription@, withdrawer@, args.amount)
                &&& record@.wf()
            },
            Err(e) => {
                let derivation_matches = match derived_identifier(
                    prefix_seed(),
                    program_id@,
                    args.resource@,
                ) {
                    Some(d) => d.0 == subscription_key@,
                    None => false,
                };
                let index = owner_index(subscription@.owners, withdrawer@);
                let remaining = entitlement(
                    subscription@.total_paid,
                    subscription@.owners[index].share,
                ) - subscription@.owners[index].withdrawn;
                ||| (escrow.owner@ != subscription_key@ && e
                    == SubscriptionError::FundsTokenAccountOwnerMismatch)
                ||| (escrow.owner@ == subscription_key@ && !derivation_matches && e
                    == SubscriptionError::DerivedKeyInvalid)
                ||| (escrow.owner@ == subscription_key@ && derivation_matches
                    && subscription@.token_mint != mint@ && e == SubscriptionError::IncorrectMint)
                ||| (escrow.owner@ == subscription_key@ && derivation_matches
                    && subscription@.token_mint == mint@ && !is_owner(
                    subscription@.owners,
                    withdrawer@,
                ) && e == SubscriptionError::WithdrawerIsNotAnOwner)
                ||| (escrow.owner@ == subscription_key@ && derivation_matches
                    && subscription@.token_mint == mint@ && is_owner(
                    subscription@.owners,
                    withdrawer@,
                ) && args.amount > remaining && e == SubscriptionError::WithdrawalOverMaxAllowed)
                ||| (escrow.owner@ == subscription_key@ && derivation_matches
                    && subscription@.token_mint == mint@ && is_owner(
                    subscription@.owners,
                    withdrawer@,
                ) && args.amount <= remaining && subscription@.owners[index].withdrawn + args.amount
                    > u64::MAX && e == SubscriptionError::NumericalOverflowError)
            },
        }),
{
    // The account within the pot must be owned by the subscription.
    if !(escrow.owner == *subscription_key) {
        return Err(SubscriptionError::FundsTokenAccountOwnerMismatch);
    }

    // The record must live at the identifier derived for this resource;
    // the bump authorizes the release out of escrow.
    let namespace = crate::identity::prefix_seed_bytes();
    let bump = match crate::identity::verify_derivation(
        subscription_key,
        &namespace,
        program_id,
        &args.resource,
    ) {
        Ok(b) => b,
        Err(e) => {
            return Err(e);
        },
    };

    // The supplied value-type reference must match the one the
    // subscription was created with.
    if !(subscription.token_mint == *mint) {
        return Err(SubscriptionError::IncorrectMint);
    }

    // Locate the withdrawer among the co-owners.
    let index = match crate::processor::find_owner(&subscription.owners, withdrawer) {
        Some(i) => i,
        None => {
            return Err(SubscriptionError::WithdrawerIsNotAnOwner);
        },
    };
    proof {
        lemma_owner_index(subscription@.owners, withdrawer@);
        assert(subscription@.owners[index as int] == subscription.owners@[index as int]@);
    }

    let share = subscription.owners[index].share;
    let current_withdrawn = subscription.owners[index].withdrawn;

    // The lifetime entitlement, rounded down; wide arithmetic keeps the
    // product exact before the division.
    proof {
        assert(subscription.total_paid as int * share as int <= u64::MAX as int * 255int)
            by (nonlinear_arith)
            requires
                subscription.total_paid <= u64::MAX,
                share <= 255,
        ;
    }
    let entitled: u128 = (subscription.total_paid as u128) * (share as u128) / 100;
    assert(entitled == entitlement(subscription@.total_paid, share));

    // What the withdrawer has already taken never exceeds their
    // entitlement, so the difference is their remaining allowance.
    assert(current_withdrawn <= entitled);
    let available: u128 = entitled - (current_withdrawn as u128);
    if (args.amount as u128) > available {
        return Err(SubscriptionError::WithdrawalOverMaxAllowed);
    }

    let new_withdrawn = match current_withdrawn.checked_add(args.amount) {
        Some(w) => w,
        None => {
            return Err(SubscriptionError::NumericalOverflowError);
        },
    };

    let record = SubscriptionData {
        token_mint: subscription.token_mint.clone(),
        owners: copy_owners_with_withdrawal(&subscription.owners, index, new_withdrawn),
        total_paid: subscription.total_paid,
        price: subscription.price,
        period_duration: subscription.period_duration,
        paid_until: subscription.paid_until,
    };
    proof {
        let updated = subscription@.owners.update(
            index as int,
            OwnerView { withdrawn: new_withdrawn, ..subscription@.owners[index as int] },
        );
        assert(record@.owners =~= updated);
        assert forall|i: int|
            0 <= i < record@.owners.len() implies (#[trigger] record@.owners[i]).withdrawn
            <= entitlement(record@.total_paid, record@.owners[i].share) by {
            if i != index {
                assert(record@.owners[i] == subscription@.owners[i]);
            }
        }
    }
    Ok((record, bump))
}

/// Copy a co-owner list, replacing the cumulative withdrawal of the
/// entry at `index` with `new_withdrawn`.
fn copy_owners_with_withdrawal(owners: &Vec<OwnerEntry>, index: usize, new_withdrawn: u64) -> (r:
    Vec<OwnerEntry>)
    requires
        index < owners@.len(),
    ensures
        r@.map_values(|o: OwnerEntry| o@) == owners@.map_values(|o: OwnerEntry| o@).update(
            index as int,
            OwnerView { withdrawn: new_withdrawn, ..owners@[index as int]@ },
        ),
{
    let mut r: Vec<OwnerEntry> = Vec::new();
    let mut i: usize = 0;
    while i < owners.len()
        invariant
            i <= owners@.len(),
            index < owners@.len(),
            r@.len() == i,
            forall|j: int|
                0 <= j < i && j != index ==> (#[trigger] r@[j])@ == owners@[j]@,
            index < i ==> r@[index as int]@ == (OwnerView {
                withdrawn: new_withdrawn,
                ..owners@[index as int]@
            }),
        decreases owners@.len() - i,
    {
        if i == index {
            r.push(
                OwnerEntry {
                    address: owners[i].address.clone(),
                    share: owners[i].share,
                    withdrawn: new_withdrawn,
                },
            );
        } else {
            r.push(owners[i].clone());
        }
        i = i + 1;
    }
    proof {
        assert(r@.map_values(|o: OwnerEntry| o@) =~= owners@.map_values(|o: OwnerEntry| o@).update(
            index as int,
            OwnerView { withdrawn: new_withdrawn, ..owners@[index as int]@ },
        ));
    }
    r
}

} // verus!
