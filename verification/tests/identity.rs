use spl_subscription::errors::SubscriptionError;
use spl_subscription::identity::{prefix_seed_bytes, verify_derivation, Address};
use spl_subscription::PREFIX;

fn address(tag: u8) -> Address {
    Address { bytes: vec![tag; 32] }
}

#[test]
fn prefix_seed_spells_the_namespace_tag() {
    assert_eq!(prefix_seed_bytes(), PREFIX.as_bytes().to_vec());
    assert_eq!(prefix_seed_bytes(), vec![115, 117, 98]);
}

#[test]
fn derivation_is_deterministic() {
    let namespace = prefix_seed_bytes();
    let program_id = address(1);
    let resource = address(2);
    let first = spl_subscription::identity::derive(&namespace, &program_id, &resource).expect("derive");
    let second = spl_subscription::identity::derive(&namespace, &program_id, &resource).expect("derive again");
    assert_eq!(first.0.bytes, second.0.bytes);
    assert_eq!(first.1, second.1);
}

#[test]
fn derivation_depends_on_the_resource() {
    let namespace = prefix_seed_bytes();
    let program_id = address(1);
    let one = spl_subscription::identity::derive(&namespace, &program_id, &address(2)).expect("derive");
    let other = spl_subscription::identity::derive(&namespace, &program_id, &address(3)).expect("derive");
    assert_ne!(one.0.bytes, other.0.bytes);
}

#[test]
fn derivation_matches_the_ledger_routine() {
    let namespace = prefix_seed_bytes();
    let program_id = address(1);
    let resource = address(2);
    let (key, bump) = spl_subscription::identity::derive(&namespace, &program_id, &resource).expect("derive");
    // The identifier is a genuine program-derived address, not any of
    // the inputs handed back.
    assert_ne!(key.bytes, program_id.bytes);
    assert_ne!(key.bytes, resource.bytes);
    let pid = solana_program::pubkey::Pubkey::new_from_array([1; 32]);
    let seeds: [&[u8]; 3] = [PREFIX.as_bytes(), &[1; 32], &[2; 32]];
    let (expected, expected_bump) =
        solana_program::pubkey::Pubkey::find_program_address(&seeds, &pid);
    assert_eq!(key.bytes, expected.to_bytes().to_vec());
    assert_eq!(bump, expected_bump);
}

#[test]
fn verification_accepts_the_derived_identifier() {
    let namespace = prefix_seed_bytes();
    let program_id = address(1);
    let resource = address(2);
    let (key, bump) = spl_subscription::identity::derive(&namespace, &program_id, &resource).expect("derive");
    let verified = verify_derivation(&key, &namespace, &program_id, &resource).expect("verify");
    assert_eq!(verified, bump);
}

#[test]
fn verification_rejects_any_other_identifier() {
    let namespace = prefix_seed_bytes();
    let program_id = address(1);
    let resource = address(2);
    let err = verify_derivation(&address(42), &namespace, &program_id, &resource)
        .expect_err("mismatch");
    assert_eq!(err, SubscriptionError::DerivedKeyInvalid);
}
