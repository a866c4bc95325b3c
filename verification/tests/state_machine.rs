use spl_subscription::errors::SubscriptionError;
use spl_subscription::identity::{prefix_seed_bytes, Address};
use spl_subscription::processor::{
    create_subscription, pay_subscription, withdraw_funds, CreateSubscriptionArgs,
    SubscriptionData, TokenAccountState, WithdrawFundsArgs, MAX_OWNER_LIMIT,
};

fn address(tag: u8) -> Address {
    let mut bytes = vec![tag; 32];
    bytes[0] = tag.wrapping_add(7);
    Address { bytes }
}

fn namespace() -> Vec<u8> {
    prefix_seed_bytes()
}

struct Setup {
    program_id: Address,
    subscription_key: Address,
    mint: Address,
    resource: Address,
    record: SubscriptionData,
}

fn setup_subscription(shares: Vec<u8>, price: u64) -> Setup {
    let program_id = address(1);
    let resource = address(2);
    let mint = address(3);
    let (subscription_key, _bump) = spl_subscription::identity::derive(&namespace(), &program_id, &resource).expect("derive");

    let mut owner_addresses = Vec::new();
    for n in 0..shares.len() {
        owner_addresses.push(address(10 + n as u8));
    }
    let args = CreateSubscriptionArgs {
        owner_addresses,
        owner_shares: shares,
        token_mint: mint.clone(),
        resource: resource.clone(),
        price,
        period_duration: 1000,
    };
    let (record, _bump) =
        create_subscription(&program_id, &subscription_key, &args).expect("create");
    assert_eq!(record.token_mint.bytes, mint.bytes);
    assert_eq!(record.total_paid, 0);
    assert_eq!(record.paid_until, 0);
    Setup { program_id, subscription_key, mint, resource, record }
}

fn escrow_for(setup: &Setup, amount: u64) -> TokenAccountState {
    TokenAccountState {
        owner: setup.subscription_key.clone(),
        amount,
        has_delegate: false,
        has_close_authority: false,
    }
}

fn run_tests_single_owner() {
    let subscription_price = 500;
    let setup = setup_subscription(vec![100], subscription_price);
    assert_eq!(setup.record.owners.len(), 1);
    assert_eq!(setup.record.owners[0].withdrawn, 0);

    // Owner balance and escrow balance, moved by the host around each
    // successful transition.
    let mut balances = (10_000_000u64, 0u64);

    let escrow = escrow_for(&setup, balances.1);
    let record = pay_subscription(
        &setup.record,
        &setup.subscription_key,
        &escrow,
        balances.0,
        0,
    )
    .expect("pay");
    balances = (balances.0 - subscription_price, balances.1 + subscription_price);
    assert_eq!(record.total_paid, 500);
    assert_eq!(balances, (10_000_000 - 500, 500));

    let escrow = escrow_for(&setup, balances.1);
    let args = WithdrawFundsArgs { resource: setup.resource.clone(), amount: 500 };
    let withdrawer = record.owners[0].address.clone();
    let (record, _bump) = withdraw_funds(
        &setup.program_id,
        &setup.subscription_key,
        &record,
        &escrow,
        &setup.mint,
        &withdrawer,
        &args,
    )
    .expect("withdraw");
    balances = (balances.0 + 500, balances.1 - 500);
    assert_eq!(record.owners[0].withdrawn, 500);
    assert_eq!(balances, (10_000_000, 0));
}

fn run_tests_multi_owner() {
    let subscription_price = 1000;
    let setup = setup_subscription(vec![80, 20], subscription_price);
    assert_eq!(setup.record.owners.len(), 2);
    assert_eq!(setup.record.owners[0].withdrawn, 0);
    assert_eq!(setup.record.owners[1].withdrawn, 0);

    let mut escrow_balance = 0u64;
    let payer_balance = 10_000_000u64;

    let escrow = escrow_for(&setup, escrow_balance);
    let record = pay_subscription(
        &setup.record,
        &setup.subscription_key,
        &escrow,
        payer_balance,
        0,
    )
    .expect("first payment");
    escrow_balance += subscription_price;
    assert_eq!(record.total_paid, 1000);

    // Owner B holds 20 percent: their cap after one payment is 200, so
    // withdrawing 500 must fail and leave everything unchanged.
    let owner_b = record.owners[1].address.clone();
    let escrow = escrow_for(&setup, escrow_balance);
    let args = WithdrawFundsArgs { resource: setup.resource.clone(), amount: 500 };
    let err = withdraw_funds(
        &setup.program_id,
        &setup.subscription_key,
        &record,
        &escrow,
        &setup.mint,
        &owner_b,
        &args,
    )
    .expect_err("over the allowed limit");
    assert_eq!(err, SubscriptionError::WithdrawalOverMaxAllowed);
    assert_eq!(record.owners[1].withdrawn, 0);
    assert_eq!(escrow_balance, 1000);

    let args = WithdrawFundsArgs { resource: setup.resource.clone(), amount: 100 };
    let (record, _bump) = withdraw_funds(
        &setup.program_id,
        &setup.subscription_key,
        &record,
        &escrow,
        &setup.mint,
        &owner_b,
        &args,
    )
    .expect("allowed withdrawal");
    escrow_balance -= 100;
    assert_eq!(record.owners[0].withdrawn, 0);
    assert_eq!(record.owners[1].withdrawn, 100);

    let escrow = escrow_for(&setup, escrow_balance);
    let record = pay_subscription(
        &record,
        &setup.subscription_key,
        &escrow,
        payer_balance,
        0,
    )
    .expect("second payment");
    escrow_balance += subscription_price;
    assert_eq!(record.total_paid, 2000);

    // The limit rose from 20 percent of 1000 (200) to 20 percent of
    // 2000 (400): the remaining 300 can now be withdrawn.
    let escrow = escrow_for(&setup, escrow_balance);
    let args = WithdrawFundsArgs { resource: setup.resource.clone(), amount: 300 };
    let (record, _bump) = withdraw_funds(
        &setup.program_id,
        &setup.subscription_key,
        &record,
        &escrow,
        &setup.mint,
        &owner_b,
        &args,
    )
    .expect("remaining withdrawal");
    escrow_balance -= 300;
    assert_eq!(record.owners[0].withdrawn, 0);
    assert_eq!(record.owners[1].withdrawn, 400);
    assert_eq!(record.total_paid, 2000);
    assert_eq!(escrow_balance, 1600);
}

#[test]
fn run_tests() {
    run_tests_single_owner();
    run_tests_multi_owner();
}

#[test]
fn create_rejects_too_many_owners() {
    let program_id = address(1);
    let resource = address(2);
    let (subscription_key, _) = spl_subscription::identity::derive(&namespace(), &program_id, &resource).expect("derive");
    let count = MAX_OWNER_LIMIT + 1;
    let args = CreateSubscriptionArgs {
        owner_addresses: (0..count).map(|n| address(20 + n as u8)).collect(),
        owner_shares: vec![20, 20, 20, 20, 10, 10],
        token_mint: address(3),
        resource,
        price: 500,
        period_duration: 1000,
    };
    let err = create_subscription(&program_id, &subscription_key, &args).expect_err("six owners");
    assert_eq!(err, SubscriptionError::MaxOwnersExceeded);
}

#[test]
fn create_rejects_mismatched_lists() {
    let program_id = address(1);
    let resource = address(2);
    let (subscription_key, _) = spl_subscription::identity::derive(&namespace(), &program_id, &resource).expect("derive");
    let args = CreateSubscriptionArgs {
        owner_addresses: vec![address(20), address(21)],
        owner_shares: vec![80, 15, 5],
        token_mint: address(3),
        resource,
        price: 500,
        period_duration: 1000,
    };
    let err = create_subscription(&program_id, &subscription_key, &args).expect_err("mismatch");
    assert_eq!(err, SubscriptionError::OwnerAddressesToSharesMismatch);
}

#[test]
fn create_rejects_wrong_identifier() {
    let program_id = address(1);
    let resource = address(2);
    let args = CreateSubscriptionArgs {
        owner_addresses: vec![address(20)],
        owner_shares: vec![100],
        token_mint: address(3),
        resource,
        price: 500,
        period_duration: 1000,
    };
    let not_the_derived_key = address(42);
    let err = create_subscription(&program_id, &not_the_derived_key, &args)
        .expect_err("caller-chosen identifier");
    assert_eq!(err, SubscriptionError::InvalidSubscriptionAccount);
}

#[test]
fn withdrawal_by_non_owner_is_rejected() {
    let setup = setup_subscription(vec![100], 500);
    let escrow = escrow_for(&setup, 0);
    let record = pay_subscription(&setup.record, &setup.subscription_key, &escrow, 1_000_000, 0)
        .expect("pay");
    let stranger = address(99);
    let args = WithdrawFundsArgs { resource: setup.resource.clone(), amount: 1 };
    let err = withdraw_funds(
        &setup.program_id,
        &setup.subscription_key,
        &record,
        &escrow,
        &setup.mint,
        &stranger,
        &args,
    )
    .expect_err("not an owner");
    assert_eq!(err, SubscriptionError::WithdrawerIsNotAnOwner);
    // The record the host would persist on success was never produced;
    // the old one is untouched.
    assert_eq!(record.owners[0].withdrawn, 0);
}

#[test]
fn withdrawal_rejects_wrong_mint() {
    let setup = setup_subscription(vec![100], 500);
    let escrow = escrow_for(&setup, 0);
    let record = pay_subscription(&setup.record, &setup.subscription_key, &escrow, 1_000_000, 0)
        .expect("pay");
    let withdrawer = record.owners[0].address.clone();
    let wrong_mint = address(77);
    let args = WithdrawFundsArgs { resource: setup.resource.clone(), amount: 1 };
    let err = withdraw_funds(
        &setup.program_id,
        &setup.subscription_key,
        &record,
        &escrow,
        &wrong_mint,
        &withdrawer,
        &args,
    )
    .expect_err("wrong mint");
    assert_eq!(err, SubscriptionError::IncorrectMint);
}

#[test]
fn withdrawal_rejects_foreign_escrow() {
    let setup = setup_subscription(vec![100], 500);
    let escrow = TokenAccountState {
        owner: address(66),
        amount: 0,
        has_delegate: false,
        has_close_authority: false,
    };
    let withdrawer = setup.record.owners[0].address.clone();
    let args = WithdrawFundsArgs { resource: setup.resource.clone(), amount: 0 };
    let err = withdraw_funds(
        &setup.program_id,
        &setup.subscription_key,
        &setup.record,
        &escrow,
        &setup.mint,
        &withdrawer,
        &args,
    )
    .expect_err("escrow owned by someone else");
    assert_eq!(err, SubscriptionError::FundsTokenAccountOwnerMismatch);
}

#[test]
fn payment_rejects_unsafe_escrow() {
    let setup = setup_subscription(vec![100], 500);

    let mut escrow = escrow_for(&setup, 0);
    escrow.has_delegate = true;
    let err = pay_subscription(&setup.record, &setup.subscription_key, &escrow, 1_000_000, 0)
        .expect_err("delegate");
    assert_eq!(err, SubscriptionError::DelegateShouldBeNone);

    let mut escrow = escrow_for(&setup, 0);
    escrow.has_close_authority = true;
    let err = pay_subscription(&setup.record, &setup.subscription_key, &escrow, 1_000_000, 0)
        .expect_err("close authority");
    assert_eq!(err, SubscriptionError::CloseAuthorityShouldBeNone);

    let escrow = TokenAccountState {
        owner: address(66),
        amount: 0,
        has_delegate: false,
        has_close_authority: false,
    };
    let err = pay_subscription(&setup.record, &setup.subscription_key, &escrow, 1_000_000, 0)
        .expect_err("foreign owner");
    assert_eq!(err, SubscriptionError::FundsTokenAccountOwnerMismatch);
}

#[test]
fn payment_rejects_low_balance() {
    let setup = setup_subscription(vec![100], 500);
    let escrow = escrow_for(&setup, 0);
    let err = pay_subscription(&setup.record, &setup.subscription_key, &escrow, 499, 0)
        .expect_err("balance below price");
    assert_eq!(err, SubscriptionError::BalanceTooLow);
}

#[test]
fn payment_rejects_accrual_overflow() {
    let setup = setup_subscription(vec![100], u64::MAX);
    let escrow = escrow_for(&setup, 0);
    let record = pay_subscription(&setup.record, &setup.subscription_key, &escrow, u64::MAX, 0)
        .expect("first payment fills the counter");
    assert_eq!(record.total_paid, u64::MAX);
    let err = pay_subscription(&record, &setup.subscription_key, &escrow, u64::MAX, 0)
        .expect_err("second payment overflows");
    assert_eq!(err, SubscriptionError::NumericalOverflowError);
}

#[test]
fn payment_rejects_oversized_period() {
    let program_id = address(1);
    let resource = address(2);
    let (subscription_key, _) = spl_subscription::identity::derive(&namespace(), &program_id, &resource).expect("derive");
    let args = CreateSubscriptionArgs {
        owner_addresses: vec![address(20)],
        owner_shares: vec![100],
        token_mint: address(3),
        resource,
        price: 500,
        period_duration: u64::MAX,
    };
    let (record, _) = create_subscription(&program_id, &subscription_key, &args).expect("create");
    let escrow = TokenAccountState {
        owner: subscription_key.clone(),
        amount: 0,
        has_delegate: false,
        has_close_authority: false,
    };
    let err = pay_subscription(&record, &subscription_key, &escrow, 1_000_000, 0)
        .expect_err("period does not fit a timestamp");
    assert_eq!(err, SubscriptionError::NumericalOverflowError);
}

#[test]
fn period_extension_branches() {
    let setup = setup_subscription(vec![100], 500);

    // A lapsed subscription restarts the clock from now.
    let escrow = escrow_for(&setup, 0);
    let record = pay_subscription(&setup.record, &setup.subscription_key, &escrow, 1_000_000, 5000)
        .expect("lapsed payment");
    assert_eq!(record.paid_until, 5000 + 1000);

    // A second payment in immediate succession, before the first period
    // elapses, extends from the current expiry instead.
    let record = pay_subscription(&record, &setup.subscription_key, &escrow, 1_000_000, 5000)
        .expect("active payment");
    assert_eq!(record.paid_until, 5000 + 1000 + 1000);
}

#[test]
fn accrual_is_cumulative() {
    let setup = setup_subscription(vec![50, 50], 250);
    let escrow = escrow_for(&setup, 0);
    let mut record = setup.record;
    for i in 0..4 {
        record = pay_subscription(&record, &setup.subscription_key, &escrow, 1_000_000, i)
            .expect("payment");
    }
    assert_eq!(record.total_paid, 4 * 250);
    assert!(record.paid_until >= 0);
}

#[test]
fn add_funds_counts_and_overflows() {
    let setup = setup_subscription(vec![100], 500);
    let mut record = setup.record;
    record.add_funds(123).expect("add");
    assert_eq!(record.total_paid, 123);
    let err = record.add_funds(u64::MAX).expect_err("overflow");
    assert_eq!(err, SubscriptionError::NumericalOverflowError);
    assert_eq!(record.total_paid, 123);
}

#[test]
fn withdrawal_rejects_bookkeeping_overflow() {
    // Nothing rejects a pathological share above 100 percent at
    // creation; the withdrawal bookkeeping still may not overflow.
    let program_id = address(1);
    let resource = address(2);
    let (subscription_key, _) =
        spl_subscription::identity::derive(&namespace(), &program_id, &resource).expect("derive");
    let args = CreateSubscriptionArgs {
        owner_addresses: vec![address(20)],
        owner_shares: vec![200],
        token_mint: address(3),
        resource: resource.clone(),
        price: u64::MAX,
        period_duration: 1000,
    };
    let (record, _) = create_subscription(&program_id, &subscription_key, &args).expect("create");
    let escrow = TokenAccountState {
        owner: subscription_key.clone(),
        amount: 0,
        has_delegate: false,
        has_close_authority: false,
    };
    let record = pay_subscription(&record, &subscription_key, &escrow, u64::MAX, 0).expect("pay");
    assert_eq!(record.total_paid, u64::MAX);

    // The 200 percent share entitles the owner to twice the counter;
    // after draining a full counter's worth, one more unit would push
    // the withdrawn bookkeeping past its range.
    let withdrawer = record.owners[0].address.clone();
    let args = WithdrawFundsArgs { resource: resource.clone(), amount: u64::MAX };
    let (record, _) = withdraw_funds(
        &program_id,
        &subscription_key,
        &record,
        &escrow,
        &address(3),
        &withdrawer,
        &args,
    )
    .expect("first withdrawal");
    assert_eq!(record.owners[0].withdrawn, u64::MAX);

    let args = WithdrawFundsArgs { resource, amount: 1 };
    let err = withdraw_funds(
        &program_id,
        &subscription_key,
        &record,
        &escrow,
        &address(3),
        &withdrawer,
        &args,
    )
    .expect_err("bookkeeping overflow");
    assert_eq!(err, SubscriptionError::NumericalOverflowError);
}

#[test]
fn proportional_caps_hold_in_every_state() {
    let setup = setup_subscription(vec![60, 30, 10], 997);
    let escrow = escrow_for(&setup, 0);
    let mut record = pay_subscription(&setup.record, &setup.subscription_key, &escrow, 10_000, 0)
        .expect("pay");

    // Drain each owner's full remaining entitlement in turn, checking
    // the cap after every state change.
    for i in 0..record.owners.len() {
        let cap = (record.total_paid as u128) * (record.owners[i].share as u128) / 100;
        let withdrawer = record.owners[i].address.clone();
        let args = WithdrawFundsArgs { resource: setup.resource.clone(), amount: cap as u64 };
        let (next, _) = withdraw_funds(
            &setup.program_id,
            &setup.subscription_key,
            &record,
            &escrow,
            &setup.mint,
            &withdrawer,
            &args,
        )
        .expect("drain entitlement");
        record = next;
        for j in 0..record.owners.len() {
            let cap_j = (record.total_paid as u128) * (record.owners[j].share as u128) / 100;
            assert!((record.owners[j].withdrawn as u128) <= cap_j);
        }
        let args = WithdrawFundsArgs { resource: setup.resource.clone(), amount: 1 };
        let err = withdraw_funds(
            &setup.program_id,
            &setup.subscription_key,
            &record,
            &escrow,
            &setup.mint,
            &withdrawer,
            &args,
        )
        .expect_err("nothing left for this owner");
        assert_eq!(err, SubscriptionError::WithdrawalOverMaxAllowed);
    }
    // 60, 30 and 10 percent of 997, each rounded down.
    assert_eq!(record.owners[0].withdrawn, 598);
    assert_eq!(record.owners[1].withdrawn, 299);
    assert_eq!(record.owners[2].withdrawn, 99);
}
