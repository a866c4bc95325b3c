//! The subscription record: the one piece of state the library owns.
//!
//! A record lives at its derived identifier and is mutated only by the
//! three transitions in the submodules: creation, payment accrual and
//! proportional withdrawal.  Contracts are stated over [`RecordView`],
//! the mathematical model of a record.

use vstd::prelude::*;

use crate::errors::SubscriptionError;
use crate::identity::Address;

pub mod create_subscription;
pub mod pay_subscription;
pub mod withdraw_funds;

pub use create_subscription::{create_subscription, CreateSubscriptionArgs};
pub use pay_subscription::{pay_subscription, PaySubscriptionArgs};
pub use withdraw_funds::{withdraw_funds, WithdrawFundsArgs};

verus! {

/// Hard capacity limit on the number of co-owners of one subscription.
pub const MAX_OWNER_LIMIT: usize = 5;

/// One co-owner of a subscription: their address, their percentage share
/// of everything ever paid in, and the amount they have withdrawn so far.
///
/// Keeping the three values in one entry (rather than three parallel
/// lists) makes it impossible for the lists to drift out of length-sync.
#[derive(Debug)]
pub struct OwnerEntry {
    /// The co-owner's address.
    pub address: Address,
    /// The co-owner's share, in integer percent.
    pub share: u8,
    /// The cumulative amount this co-owner has withdrawn.
    pub withdrawn: u64,
}

/// The mathematical model of an [`OwnerEntry`].
pub struct OwnerView {
    pub address: Seq<u8>,
    pub share: u8,
    pub withdrawn: u64,
}

impl View for OwnerEntry {
    type V = OwnerView;

    open spec fn view(&self) -> OwnerView {
        OwnerView { address: self.address@, share: self.share, withdrawn: self.withdrawn }
    }
}

impl Clone for OwnerEntry {
    fn clone(&self) -> (res: Self)
        ensures
            res@ == self@,
    {
        OwnerEntry {
            address: self.address.clone(),
            share: self.share,
            withdrawn: self.withdrawn,
        }
    }
}

/// A subscription record, one per resource, persisted at the derived
/// identifier.
#[derive(Debug)]
pub struct SubscriptionData {
    /// Reference of the fungible value type this escrow accepts.
    pub token_mint: Address,
    /// The co-owners, their shares, and what each has withdrawn.
    pub owners: Vec<OwnerEntry>,
    /// Cumulative value ever accrued into escrow.
    pub total_paid: u64,
    /// The fixed amount charged per period.
    pub price: u64,
    /// The duration of each period in seconds.
    pub period_duration: u64,
    /// The timestamp the subscription remains valid through.
    pub paid_until: i64,
}

/// The mathematical model of a [`SubscriptionData`] record.
pub struct RecordView {
    pub token_mint: Seq<u8>,
    pub owners: Seq<OwnerView>,
    pub total_paid: u64,
    pub price: u64,
    pub period_duration: u64,
    pub paid_until: i64,
}

impl View for SubscriptionData {
    type V = RecordView;

    open spec fn view(&self) -> RecordView {
        RecordView {
            token_mint: self.token_mint@,
            owners: self.owners@.map_values(|o: OwnerEntry| o@),
            total_paid: self.total_paid,
            price: self.price,
            period_duration: self.period_duration,
            paid_until: self.paid_until,
        }
    }
}

/// The lifetime entitlement of an owner holding `share` percent, out of
/// `total_paid` cumulative escrowed value: `floor(total_paid * share / 100)`.
///
/// Rounding down guarantees that owners whose shares sum to at most 100
/// can never collectively withdraw more than `total_paid`.
pub open spec fn entitlement(total_paid: u64, share: u8) -> int {
    (total_paid * share) / 100
}

impl RecordView {
    /// The structural part of well-formedness: identifiers are 32
    /// bytes, the owner count respects the hard capacity limit, and the
    /// paid-through timestamp never precedes the epoch it starts from.
    /// This much is visible in the serialized shape of a record.
    pub open spec fn shape_wf(self) -> bool {
        &&& self.token_mint.len() == 32
        &&& self.owners.len() <= MAX_OWNER_LIMIT
        &&& forall|i: int|
            0 <= i < self.owners.len() ==> (#[trigger] self.owners[i]).address.len() == 32
        &&& self.paid_until >= 0
    }

    /// The semantic part of well-formedness: no owner has withdrawn
    /// beyond their proportional entitlement.
    pub open spec fn caps_ok(self) -> bool {
        forall|i: int|
            0 <= i < self.owners.len() ==> (#[trigger] self.owners[i]).withdrawn <= entitlement(
                self.total_paid,
                self.owners[i].share,
            )
    }

    /// Well-formedness of a record, established at creation and
    /// preserved by every transition.
    pub open spec fn wf(self) -> bool {
        self.shape_wf() && self.caps_ok()
    }
}

/// An owner's entitlement is monotone in the cumulative-paid counter.
pub proof fn lemma_entitlement_monotonic(total_before: u64, total_after: u64, share: u8)
    requires
        total_before <= total_after,
    ensures
        entitlement(total_before, share) <= entitlement(total_after, share),
{
    vstd::arithmetic::mul::lemma_mul_inequality(
        total_before as int,
        total_after as int,
        share as int,
    );
    vstd::arithmetic::div_mod::lemma_div_is_ordered(
        total_before * share,
        total_after * share,
        100,
    );
}

/// A record whose cumulative-paid counter only grew, with its owners
/// unchanged, stays well formed: every owner's entitlement is monotone
/// in the counter, so no withdrawal cap is violated by accrual.
pub proof fn lemma_entitlements_grow(old_record: RecordView, new_record: RecordView)
    requires
        old_record.wf(),
        new_record.token_mint == old_record.token_mint,
        new_record.owners == old_record.owners,
        new_record.total_paid >= old_record.total_paid,
        new_record.paid_until >= 0,
    ensures
        new_record.wf(),
{
    assert forall|i: int|
        0 <= i < new_record.owners.len() implies (#[trigger] new_record.owners[i]).withdrawn
        <= entitlement(new_record.total_paid, new_record.owners[i].share) by {
        lemma_entitlement_monotonic(
            old_record.total_paid,
            new_record.total_paid,
            new_record.owners[i].share,
        );
    }
}

/// The index of the first owner entry whose address is `address`, or `-1`
/// when no entry matches.
pub open spec fn owner_index(owners: Seq<OwnerView>, address: Seq<u8>) -> int
    decreases owners.len(),
{
    if owners.len() == 0 {
        -1
    } else if owners[0].address == address {
        0
    } else {
        let rest = owner_index(owners.drop_first(), address);
        if rest < 0 {
            -1
        } else {
            1 + rest
        }
    }
}

/// Whether `address` is a registered co-owner.
pub open spec fn is_owner(owners: Seq<OwnerView>, address: Seq<u8>) -> bool {
    owner_index(owners, address) >= 0
}

/// `owner_index` finds exactly the first matching entry: a non-negative
/// result is the position of a match preceded only by non-matches, and a
/// negative result means no entry matches at all.
pub proof fn lemma_owner_index(owners: Seq<OwnerView>, address: Seq<u8>)
    ensures
        owner_index(owners, address) >= 0 ==> {
            let i = owner_index(owners, address);
            &&& i < owners.len()
            &&& owners[i].address == address
            &&& forall|j: int| 0 <= j < i ==> (#[trigger] owners[j]).address != address
        },
        owner_index(owners, address) < 0 ==> forall|j: int|
            0 <= j < owners.len() ==> (#[trigger] owners[j]).address != address,
    decreases owners.len(),
{
    if owners.len() > 0 && owners[0].address != address {
        let rest = owners.drop_first();
        lemma_owner_index(rest, address);
        assert forall|j: int| 1 <= j < owners.len() implies owners[j] == rest[j - 1] by {
            assert(rest[j - 1] == owners[j]);
        }
        let sub = owner_index(rest, address);
        if sub >= 0 {
            assert(owners[sub + 1] == rest[sub]);
            assert forall|j: int| 0 <= j < sub + 1 implies (#[trigger] owners[j]).address
                != address by {
                if j > 0 {
                    assert(owners[j] == rest[j - 1]);
                    assert(rest[j - 1].address != address);
                }
            }
        } else {
            assert forall|j: int| 0 <= j < owners.len() implies (#[trigger] owners[j]).address
                != address by {
                if j > 0 {
                    assert(owners[j] == rest[j - 1]);
                    assert(rest[j - 1].address != address);
                }
            }
        }
    }
}

/// Locate the first owner entry holding `address`, if any.
pub fn find_owner(owners: &Vec<OwnerEntry>, address: &Address) -> (r: Option<usize>)
    ensures
        (match r {
            Some(i) => owner_index(owners@.map_values(|o: OwnerEntry| o@), address@) == i,
            None => owner_index(owners@.map_values(|o: OwnerEntry| o@), address@) == -1,
        }),
{
    let ghost view = owners@.map_values(|o: OwnerEntry| o@);
    let mut i: usize = 0;
    while i < owners.len()
        invariant
            i <= owners@.len(),
            view == owners@.map_values(|o: OwnerEntry| o@),
            forall|j: int| 0 <= j < i ==> (#[trigger] view[j]).address != address@,
        decreases owners@.len() - i,
    {
        if owners[i].address == *address {
            proof {
                lemma_owner_index(view, address@);
                assert(view[i as int] == owners@[i as int]@);
                assert(view[i as int].address == address@);
                let found = owner_index(view, address@);
                if found < 0 {
                    assert(view[i as int].address != address@);
                } else if found < i {
                    assert(view[found].address != address@);
                } else if found > i {
                    assert(view[i as int].address != address@);
                }
            }
            return Some(i);
        }
        i = i + 1;
    }
    proof {
        lemma_owner_index(view, address@);
        let found = owner_index(view, address@);
        if found >= 0 {
            assert(view[found].address != address@);
        }
    }
    None
}

/// The state of a token account, as far as the escrow logic reads it:
/// who owns it, how much it holds, and whether a delegate or a close
/// authority is standing on it.  The host fills this in from the actual
/// custody service's account record.
#[derive(Debug)]
pub struct TokenAccountState {
    /// The authority that owns the token account.
    pub owner: Address,
    /// The token balance of the account.
    pub amount: u64,
    /// Whether the account carries a standing delegate.
    pub has_delegate: bool,
    /// Whether the account carries a standing close authority.
    pub has_close_authority: bool,
}

impl SubscriptionData {
    /// Increase the cumulative-paid counter by `amount`, rejecting
    /// numerical overflow.
    pub fn add_funds(&mut self, amount: u64) -> (r: Result<(), SubscriptionError>)
        ensures
            (match r {
                Ok(()) => old(self).total_paid + amount <= u64::MAX && *final(self)
                    == SubscriptionData {
                    total_paid: (old(self).total_paid + amount) as u64,
                    ..*old(self)
                },
                Err(e) => e == SubscriptionError::NumericalOverflowError && old(self).total_paid
                    + amount > u64::MAX && *final(self) == *old(self),
            }),
    {
        match self.total_paid.checked_add(amount) {
            Some(new_total) => {
                self.total_paid = new_total;
                Ok(())
            },
            None => Err(SubscriptionError::NumericalOverflowError),
        }
    }
}

} // verus!
