//! Creation of a subscription record.
//!
//! Creation validates the input shape and the storage identifier, and
//! builds the initial record.  The host allocates the fixed-capacity
//! persistent record at the derived identifier (funded to the storage
//! system's minimum persistence requirement) and writes the returned
//! record into it; allocation fails if the record already exists, so a
//! second creation attempt at the same identifier fails.

use vstd::prelude::*;

use crate::errors::SubscriptionError;
use crate::identity::{derived_identifier, Address};
use crate::processor::{OwnerEntry, OwnerView, RecordView, SubscriptionData, MAX_OWNER_LIMIT};

verus! {

/// Arguments of the creation transition.
#[derive(Debug)]
pub struct CreateSubscriptionArgs {
    /// Subscription co-owner addresses.
    pub owner_addresses: Vec<Address>,
    /// Subscription co-owner share percentages, index-aligned with
    /// `owner_addresses`.
    pub owner_shares: Vec<u8>,
    /// Reference of the fungible value type used to pay.
    pub token_mint: Address,
    /// The resource this subscription is bound to.
    pub resource: Address,
    /// The price of each period extension.
    pub price: u64,
    /// The duration of each period in seconds.
    pub period_duration: u64,
}

impl CreateSubscriptionArgs {
    /// Every identifier in the arguments holds exactly 32 bytes.
    pub open spec fn wf(&self) -> bool {
        &&& self.token_mint.wf()
        &&& self.resource.wf()
        &&& forall|i: int|
            0 <= i < self.owner_addresses@.len() ==> (#[trigger] self.owner_addresses@[i]).wf()
    }
}

/// The initial record written at creation: the supplied owners with zero
/// withdrawn each, a zero cumulative-paid counter, and a paid-through
/// timestamp at the epoch.
pub open spec fn initial_record(
    token_mint: Seq<u8>,
    owner_addresses: Seq<Seq<u8>>,
    owner_shares: Seq<u8>,
    price: u64,
    period_duration: u64,
) -> RecordView {
    RecordView {
        token_mint,
        owners: Seq::new(
            owner_addresses.len(),
            |i: int| OwnerView { address: owner_addresses[i], share: owner_shares[i], withdrawn: 0 },
        ),
        total_paid: 0,
        price,
        period_duration,
        paid_until: 0,
    }
}

/// Validate the shape of a creation request and build the initial
/// record.
///
/// `subscription_account` is the identifier the caller supplied for the
/// record; it must equal the derivation for `(namespace, program
/// identity, resource identity)`.  On success the initial record and the
/// derivation's bump are returned; the host then allocates the record at
/// that identifier and persists it.
///
/// Errors, in checking order: `DerivedKeyInvalid` when no identifier can
/// be derived at all, `InvalidSubscriptionAccount` when the supplied
/// identifier does not match the derivation, `MaxOwnersExceeded` when
/// more than [`MAX_OWNER_LIMIT`] owners are supplied, and
/// `OwnerAddressesToSharesMismatch` when the address and share lists
/// differ in length.
pub fn create_subscription(
    program_id: &Address,
    subscription_account: &Address,
    args: &CreateSubscriptionArgs,
) -> (r: Result<(SubscriptionData, u8), SubscriptionError>)
    requires
        program_id.wf(),
        args.wf(),
    ensures
        (match r {
            Ok((record, bump)) => {
                &&& derived_identifier(crate::identity::prefix_seed(), program_id@, args.resource@)
                    == Some((subscription_account@, bump))
                &&& args.owner_addresses@.len() <= MAX_OWNER_LIMIT
                &&& args.owner_addresses@.len() == args.owner_shares@.len()
                &&& record@ == initial_record(
                    args.token_mint@,
                    args.owner_addresses@.map_values(|a: Address| a@),
                    args.owner_shares@,
                    args.price,
                    args.period_duration,
                )
                &&& record@.wf()
            },
            Err(e) => {
                let derived = derived_identifier(
                    crate::identity::prefix_seed(),
                    program_id@,
                    args.resource@,
                );
                ||| (derived is None && e == SubscriptionError::DerivedKeyInvalid)
                ||| (derived matches Some(d) && d.0 != subscription_account@ && e
                    == SubscriptionError::InvalidSubscriptionAccount)
                ||| (derived matches Some(d) && d.0 == subscription_account@
                    && args.owner_addresses@.len() > MAX_OWNER_LIMIT && e
                    == SubscriptionError::MaxOwnersExceeded)
                ||| (derived matches Some(d) && d.0 == subscription_account@
                    && args.owner_addresses@.len() <= MAX_OWNER_LIMIT && args.owner_addresses@.len()
                    != args.owner_shares@.len() && e
                    == SubscriptionError::OwnerAddressesToSharesMismatch)
            },
        }),
{
    let namespace = crate::identity::prefix_seed_bytes();

    // The record must live at the derived identifier, never at a
    // caller-chosen one.
    let (derived_key, bump) = match crate::identity::derive(&namespace, program_id, &args.resource)
    {
        Ok(p) => p,
        Err(e) => {
            return Err(e);
        },
    };
    if !(derived_key == *subscription_account) {
        return Err(SubscriptionError::InvalidSubscriptionAccount);
    }

    if args.owner_addresses.len() > MAX_OWNER_LIMIT {
        return Err(SubscriptionError::MaxOwnersExceeded);
    }

    if args.owner_shares.len() != args.owner_addresses.len() {
        return Err(SubscriptionError::OwnerAddressesToSharesMismatch);
    }

    let ghost target = initial_record(
        args.token_mint@,
        args.owner_addresses@.map_values(|a: Address| a@),
        args.owner_shares@,
        args.price,
        args.period_duration,
    );

    let mut owners: Vec<OwnerEntry> = Vec::new();
    let mut i: usize = 0;
    while i < args.owner_addresses.len()
        invariant
            i <= args.owner_addresses@.len(),
            args.owner_addresses@.len() == args.owner_shares@.len(),
            forall|j: int|
                0 <= j < args.owner_addresses@.len() ==> (#[trigger] args.owner_addresses@[j]).wf(),
            owners@.len() == i,
            forall|j: int|
                0 <= j < i ==> (#[trigger] owners@[j])@ == (OwnerView {
                    address: args.owner_addresses@[j]@,
                    share: args.owner_shares@[j],
                    withdrawn: 0,
                }),
        decreases args.owner_addresses@.len() - i,
    {
        owners.push(
            OwnerEntry {
                address: args.owner_addresses[i].clone(),
                share: args.owner_shares[i],
                withdrawn: 0,
            },
        );
        i = i + 1;
    }

    let record = SubscriptionData {
        token_mint: args.token_mint.clone(),
        owners,
        total_paid: 0,
        price: args.price,
        period_duration: args.period_duration,
        paid_until: 0,
    };
    proof {
        assert(record@.owners =~= target.owners);
        assert(record@ == target);
    }
    Ok((record, bump))
}

} // verus!
