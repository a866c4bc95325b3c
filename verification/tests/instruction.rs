use spl_subscription::errors::SubscriptionError;
use spl_subscription::identity::{prefix_seed_bytes, Address};
use spl_subscription::instruction::{
    decode_instruction, encode_instruction,
    create_subscription_instruction, pay_subscription_instruction, withdraw_funds_instruction,
    SubscriptionInstruction,
};
use spl_subscription::processor::{
    CreateSubscriptionArgs, PaySubscriptionArgs, WithdrawFundsArgs,
};

fn address(tag: u8) -> Address {
    Address { bytes: vec![tag; 32] }
}

fn derived_key(program_id: &Address, resource: &Address) -> Vec<u8> {
    spl_subscription::identity::derive(&prefix_seed_bytes(), program_id, resource).expect("derive").0.bytes
}

#[test]
fn creation_roles_follow_the_fixed_order() {
    let program_id = address(1);
    let resource = address(2);
    let args = CreateSubscriptionArgs {
        owner_addresses: vec![address(20)],
        owner_shares: vec![100],
        token_mint: address(3),
        resource: resource.clone(),
        price: 500,
        period_duration: 1000,
    };
    let (roles, instruction) = create_subscription_instruction(
        &program_id,
        &address(10),
        &address(11),
        &address(12),
        args,
    )
    .expect("build");

    assert_eq!(roles.len(), 4);
    assert_eq!(roles[0].address.bytes, address(10).bytes);
    assert!(roles[0].is_signer && roles[0].is_writable);
    assert_eq!(roles[1].address.bytes, derived_key(&program_id, &resource));
    assert!(!roles[1].is_signer && roles[1].is_writable);
    assert_eq!(roles[2].address.bytes, address(11).bytes);
    assert!(!roles[2].is_signer && !roles[2].is_writable);
    assert_eq!(roles[3].address.bytes, address(12).bytes);
    assert!(!roles[3].is_signer && !roles[3].is_writable);
    match instruction {
        SubscriptionInstruction::CreateSubscription(a) => {
            assert_eq!(a.price, 500);
            assert_eq!(a.owner_shares, vec![100]);
        },
        _ => panic!("wrong operation"),
    }
}

#[test]
fn payment_roles_follow_the_fixed_order() {
    let program_id = address(1);
    let resource = address(2);
    let args = PaySubscriptionArgs { resource: resource.clone() };
    let (roles, instruction) = pay_subscription_instruction(
        &program_id,
        &address(10),
        &address(11),
        &address(12),
        &address(13),
        &address(14),
        &address(15),
        &address(16),
        &address(17),
        &address(18),
        args,
    )
    .expect("build");

    assert_eq!(roles.len(), 10);
    assert_eq!(roles[3].address.bytes, derived_key(&program_id, &resource));
    let signers: Vec<bool> = roles.iter().map(|r| r.is_signer).collect();
    let writables: Vec<bool> = roles.iter().map(|r| r.is_writable).collect();
    assert_eq!(
        signers,
        vec![true, false, false, false, false, true, false, false, false, false]
    );
    assert_eq!(
        writables,
        vec![true, true, true, true, true, false, false, false, false, false]
    );
    match instruction {
        SubscriptionInstruction::PaySubscription(a) => {
            assert_eq!(a.resource.bytes, resource.bytes);
        },
        _ => panic!("wrong operation"),
    }
}

#[test]
fn withdrawal_roles_follow_the_fixed_order() {
    let program_id = address(1);
    let resource = address(2);
    let args = WithdrawFundsArgs { resource: resource.clone(), amount: 250 };
    let (roles, instruction) = withdraw_funds_instruction(
        &program_id,
        &address(10),
        &address(11),
        &address(12),
        &address(13),
        &address(14),
        &address(15),
        args,
    )
    .expect("build");

    assert_eq!(roles.len(), 7);
    assert_eq!(roles[4].address.bytes, derived_key(&program_id, &resource));
    let signers: Vec<bool> = roles.iter().map(|r| r.is_signer).collect();
    let writables: Vec<bool> = roles.iter().map(|r| r.is_writable).collect();
    assert_eq!(signers, vec![true, true, false, false, false, false, false]);
    assert_eq!(writables, vec![true, true, true, true, true, false, false]);
    match instruction {
        SubscriptionInstruction::WithdrawFunds(a) => {
            assert_eq!(a.amount, 250);
        },
        _ => panic!("wrong operation"),
    }
}

#[test]
fn creation_wire_form_round_trips() {
    let args = CreateSubscriptionArgs {
        owner_addresses: vec![address(20), address(21)],
        owner_shares: vec![80, 20],
        token_mint: address(3),
        resource: address(2),
        price: 500,
        period_duration: 1000,
    };
    let instruction = SubscriptionInstruction::CreateSubscription(args);
    let bytes = encode_instruction(&instruction);
    assert_eq!(bytes.len(), 89 + 32 * 2 + 2);

    let mut expected: Vec<u8> = vec![0];
    expected.extend_from_slice(&2u32.to_le_bytes());
    expected.extend_from_slice(&[20; 32]);
    expected.extend_from_slice(&[21; 32]);
    expected.extend_from_slice(&2u32.to_le_bytes());
    expected.extend_from_slice(&[80, 20]);
    expected.extend_from_slice(&[3; 32]);
    expected.extend_from_slice(&[2; 32]);
    expected.extend_from_slice(&500u64.to_le_bytes());
    expected.extend_from_slice(&1000u64.to_le_bytes());
    assert_eq!(bytes, expected);

    match decode_instruction(&bytes).expect("decode") {
        SubscriptionInstruction::CreateSubscription(a) => {
            assert_eq!(a.owner_addresses.len(), 2);
            assert_eq!(a.owner_addresses[1].bytes, vec![21; 32]);
            assert_eq!(a.owner_shares, vec![80, 20]);
            assert_eq!(a.token_mint.bytes, vec![3; 32]);
            assert_eq!(a.resource.bytes, vec![2; 32]);
            assert_eq!(a.price, 500);
            assert_eq!(a.period_duration, 1000);
        },
        _ => panic!("wrong operation"),
    }
}

#[test]
fn withdrawal_and_payment_wire_forms_round_trip() {
    let withdraw = SubscriptionInstruction::WithdrawFunds(WithdrawFundsArgs {
        resource: address(2),
        amount: 250,
    });
    let bytes = encode_instruction(&withdraw);
    assert_eq!(bytes.len(), 41);
    assert_eq!(bytes[0], 1);
    match decode_instruction(&bytes).expect("decode") {
        SubscriptionInstruction::WithdrawFunds(a) => {
            assert_eq!(a.resource.bytes, vec![2; 32]);
            assert_eq!(a.amount, 250);
        },
        _ => panic!("wrong operation"),
    }

    let pay = SubscriptionInstruction::PaySubscription(PaySubscriptionArgs {
        resource: address(9),
    });
    let bytes = encode_instruction(&pay);
    assert_eq!(bytes.len(), 33);
    assert_eq!(bytes[0], 2);
    match decode_instruction(&bytes).expect("decode") {
        SubscriptionInstruction::PaySubscription(a) => {
            assert_eq!(a.resource.bytes, vec![9; 32]);
        },
        _ => panic!("wrong operation"),
    }
}

#[test]
fn malformed_wire_forms_are_rejected() {
    let empty: Vec<u8> = Vec::new();
    assert_eq!(decode_instruction(&empty).expect_err("empty"), SubscriptionError::DataTypeMismatch);

    let unknown_tag = vec![7; 33];
    assert_eq!(
        decode_instruction(&unknown_tag).expect_err("unknown tag"),
        SubscriptionError::DataTypeMismatch
    );

    let pay = SubscriptionInstruction::PaySubscription(PaySubscriptionArgs {
        resource: address(9),
    });
    let mut trailing = encode_instruction(&pay);
    trailing.push(0);
    assert_eq!(
        decode_instruction(&trailing).expect_err("trailing byte"),
        SubscriptionError::DataTypeMismatch
    );

    let withdraw = SubscriptionInstruction::WithdrawFunds(WithdrawFundsArgs {
        resource: address(2),
        amount: 250,
    });
    let bytes = encode_instruction(&withdraw);
    let truncated = bytes[..bytes.len() - 1].to_vec();
    assert_eq!(
        decode_instruction(&truncated).expect_err("truncated"),
        SubscriptionError::DataTypeMismatch
    );
}
