//! Identity derivation: deterministic, collision-resistant storage
//! identifiers for subscription records.
//!
//! A subscription record is never stored at a caller-chosen identifier.
//! Its identifier is always derived from the namespace tag, the program
//! identity and the resource identity, together with a small
//! disambiguation counter (the "bump").  The derivation itself is done by
//! the ledger's derivation routine; this module names its result and
//! proves everything downstream against that name.

use vstd::prelude::*;

use crate::errors::SubscriptionError;

verus! {

/// A 32-byte account identifier.
#[derive(Debug)]
pub struct Address {
    pub bytes: Vec<u8>,
}

impl View for Address {
    type V = Seq<u8>;

    open spec fn view(&self) -> Seq<u8> {
        self.bytes@
    }
}

impl Address {
    /// An address is well formed when it holds exactly 32 bytes.
    pub open spec fn wf(&self) -> bool {
        self.bytes@.len() == 32
    }
}

impl Clone for Address {
    fn clone(&self) -> (res: Self)
        ensures
            res@ == self@,
    {
        let mut bytes: Vec<u8> = Vec::new();
        let mut i: usize = 0;
        while i < self.bytes.len()
            invariant
                i <= self.bytes@.len(),
                bytes@ == self.bytes@.subrange(0, i as int),
            decreases self.bytes@.len() - i,
        {
            bytes.push(self.bytes[i]);
            i = i + 1;
        }
        proof {
            assert(bytes@ =~= self.bytes@);
        }
        Address { bytes }
    }
}

impl PartialEq for Address {
    fn eq(&self, other: &Self) -> (r: bool) {
        if self.bytes.len() != other.bytes.len() {
            return false;
        }
        let mut i: usize = 0;
        while i < self.bytes.len()
            invariant
                i <= self.bytes@.len(),
                self.bytes@.len() == other.bytes@.len(),
                forall|j: int| 0 <= j < i ==> self.bytes@[j] == other.bytes@[j],
            decreases self.bytes@.len() - i,
        {
            if self.bytes[i] != other.bytes[i] {
                return false;
            }
            i = i + 1;
        }
        proof {
            assert(self.bytes@ =~= other.bytes@);
        }
        true
    }
}

impl vstd::std_specs::cmp::PartialEqSpecImpl for Address {
    open spec fn obeys_eq_spec() -> bool {
        true
    }

    open spec fn eq_spec(&self, other: &Address) -> bool {
        self.bytes@ == other.bytes@
    }
}

impl Eq for Address {}

/// The byte form of [`crate::PREFIX`], the namespace tag of every
/// subscription identifier derivation.
pub open spec fn prefix_seed() -> Seq<u8> {
    seq![115u8, 117u8, 98u8]
}

/// The namespace tag as bytes, for handing to the identity deriver.
pub fn prefix_seed_bytes() -> (r: Vec<u8>)
    ensures
        r@ == prefix_seed(),
{
    let mut r: Vec<u8> = Vec::new();
    r.push(115);
    r.push(117);
    r.push(98);
    proof {
        assert(r@ =~= prefix_seed());
    }
    r
}

/// The identifier and bump that the ledger's derivation routine computes
/// from a namespace tag, a program identity and a resource identity, or
/// `None` in the statistically improbable event that no bump works.
///
/// The derivation is a pure function of these three inputs, so naming its
/// result is sound; everything the library proves about identifiers goes
/// through this name.
pub uninterp spec fn derived_identifier(
    namespace: Seq<u8>,
    program_id: Seq<u8>,
    resource: Seq<u8>,
) -> Option<(Seq<u8>, u8)>;

/// Relies on `Pubkey::try_find_program_address` from `solana-program`:
/// the derivation is a deterministic function of the seeds and the
/// program identity alone, and a derived identifier is exactly 32 bytes.
#[verifier::external_body]
fn solana_find_program_address(
    namespace: &Vec<u8>,
    program_id: &Address,
    resource: &Address,
) -> (r: Option<(Address, u8)>)
    requires
        program_id.wf(),
        resource.wf(),
    ensures
        (match r {
            Some(p) => derived_identifier(namespace@, program_id@, resource@) == Some((p.0@, p.1))
                && p.0@.len() == 32,
            None => derived_identifier(namespace@, program_id@, resource@) is None,
        }),
{
    let pid = solana_program::pubkey::Pubkey::new_from_array(
        program_id.bytes.as_slice().try_into().unwrap(),
    );
    let seeds: [&[u8]; 3] = [
        namespace.as_slice(),
        program_id.bytes.as_slice(),
        resource.bytes.as_slice(),
    ];
    solana_program::pubkey::Pubkey::try_find_program_address(&seeds, &pid)
        .map(|(key, bump)| (Address { bytes: key.to_bytes().to_vec() }, bump))
}

/// Derive the storage identifier for a subscription bound to `resource`.
///
/// Same inputs always yield the same identifier: the result is pinned to
/// [`derived_identifier`], a function of the inputs alone.
pub fn derive(namespace: &Vec<u8>, program_id: &Address, resource: &Address) -> (r: Result<
    (Address, u8),
    SubscriptionError,
>)
    requires
        program_id.wf(),
        resource.wf(),
    ensures
        (match r {
            Ok(p) => derived_identifier(namespace@, program_id@, resource@) == Some((p.0@, p.1))
                && p.0.wf(),
            Err(e) => e == SubscriptionError::DerivedKeyInvalid && derived_identifier(
                namespace@,
                program_id@,
                resource@,
            ) is None,
        }),
{
    match solana_find_program_address(namespace, program_id, resource) {
        Some(p) => Ok(p),
        None => Err(SubscriptionError::DerivedKeyInvalid),
    }
}

/// Check that a caller-supplied identifier matches the derivation for
/// `(namespace, program identity, resource identity)`, returning the bump
/// on success and `DerivedKeyInvalid` on any mismatch.
pub fn verify_derivation(
    expected: &Address,
    namespace: &Vec<u8>,
    program_id: &Address,
    resource: &Address,
) -> (r: Result<u8, SubscriptionError>)
    requires
        program_id.wf(),
        resource.wf(),
    ensures
        (match r {
            Ok(bump) => derived_identifier(namespace@, program_id@, resource@) == Some((
                expected@,
                bump,
            )),
            Err(e) => e == SubscriptionError::DerivedKeyInvalid && (match derived_identifier(
                namespace@,
                program_id@,
                resource@,
            ) {
                Some(d) => d.0 != expected@,
                None => true,
            }),
        }),
{
    match derive(namespace, program_id, resource) {
        Ok((address, bump)) => {
            if address == *expected {
                Ok(bump)
            } else {
                Err(SubscriptionError::DerivedKeyInvalid)
            }
        },
        Err(e) => Err(e),
    }
}

/// Derivation determinism: the derived identifier is a function of the
/// namespace tag, program identity and resource identity alone, so two
/// derivations from identical inputs yield identical results.
pub proof fn lemma_derivation_deterministic(
    namespace: Seq<u8>,
    program_id: Seq<u8>,
    resource: Seq<u8>,
    first: Option<(Seq<u8>, u8)>,
    second: Option<(Seq<u8>, u8)>,
)
    requires
        first == derived_identifier(namespace, program_id, resource),
        second == derived_identifier(namespace, program_id, resource),
    ensures
        first == second,
{
}

} // verus!
