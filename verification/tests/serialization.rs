use spl_subscription::errors::SubscriptionError;
use spl_subscription::identity::Address;
use spl_subscription::processor::{OwnerEntry, SubscriptionData};
use spl_subscription::serialization::{serialize_record, MAX_SUBSCRIPTION_SIZE};

fn address(tag: u8) -> Address {
    Address { bytes: vec![tag; 32] }
}

fn owner(tag: u8, share: u8, withdrawn: u64) -> OwnerEntry {
    OwnerEntry { address: address(tag), share, withdrawn }
}

fn sample_record() -> SubscriptionData {
    SubscriptionData {
        token_mint: address(3),
        owners: vec![owner(20, 80, 7), owner(21, 20, 0)],
        total_paid: 1000,
        price: 500,
        period_duration: 60,
        paid_until: 99,
    }
}

fn assert_same_record(a: &SubscriptionData, b: &SubscriptionData) {
    assert_eq!(a.token_mint.bytes, b.token_mint.bytes);
    assert_eq!(a.owners.len(), b.owners.len());
    for i in 0..a.owners.len() {
        assert_eq!(a.owners[i].address.bytes, b.owners[i].address.bytes);
        assert_eq!(a.owners[i].share, b.owners[i].share);
        assert_eq!(a.owners[i].withdrawn, b.owners[i].withdrawn);
    }
    assert_eq!(a.total_paid, b.total_paid);
    assert_eq!(a.price, b.price);
    assert_eq!(a.period_duration, b.period_duration);
    assert_eq!(a.paid_until, b.paid_until);
}

#[test]
fn serialized_bytes_follow_the_schema() {
    let record = SubscriptionData {
        token_mint: address(3),
        owners: vec![owner(20, 50, 7)],
        total_paid: 1000,
        price: 500,
        period_duration: 60,
        paid_until: 99,
    };
    let bytes = serialize_record(&record);

    let mut expected: Vec<u8> = Vec::new();
    expected.extend_from_slice(&[3; 32]);
    expected.extend_from_slice(&1u32.to_le_bytes());
    expected.extend_from_slice(&[20; 32]);
    expected.extend_from_slice(&1u32.to_le_bytes());
    expected.push(50);
    expected.extend_from_slice(&1u32.to_le_bytes());
    expected.extend_from_slice(&7u64.to_le_bytes());
    expected.extend_from_slice(&1000u64.to_le_bytes());
    expected.extend_from_slice(&500u64.to_le_bytes());
    expected.extend_from_slice(&60u64.to_le_bytes());
    expected.extend_from_slice(&99u64.to_le_bytes());

    assert_eq!(bytes, expected);
    assert_eq!(bytes.len(), 76 + 41);
}

#[test]
fn round_trip_returns_the_record() {
    let record = sample_record();
    let bytes = serialize_record(&record);
    assert_eq!(bytes.len(), 76 + 41 * 2);
    let decoded = SubscriptionData::from_account_info(&bytes).expect("decode");
    assert_same_record(&record, &decoded);
}

#[test]
fn round_trip_ignores_fixed_capacity_padding() {
    let record = sample_record();
    let mut bytes = serialize_record(&record);
    assert!(bytes.len() <= MAX_SUBSCRIPTION_SIZE);
    bytes.resize(MAX_SUBSCRIPTION_SIZE, 0);
    let decoded = SubscriptionData::from_account_info(&bytes).expect("decode padded");
    assert_same_record(&record, &decoded);
}

#[test]
fn round_trip_of_an_empty_owner_list() {
    let record = SubscriptionData {
        token_mint: address(3),
        owners: vec![],
        total_paid: 0,
        price: 1,
        period_duration: 2,
        paid_until: 0,
    };
    let bytes = serialize_record(&record);
    assert_eq!(bytes.len(), 76);
    let decoded = SubscriptionData::from_account_info(&bytes).expect("decode");
    assert_same_record(&record, &decoded);
}

#[test]
fn truncated_data_is_rejected() {
    let record = sample_record();
    let bytes = serialize_record(&record);
    let truncated = bytes[..bytes.len() - 1].to_vec();
    let err = SubscriptionData::from_account_info(&truncated).expect_err("truncated");
    assert_eq!(err, SubscriptionError::DataTypeMismatch);

    let empty: Vec<u8> = Vec::new();
    let err = SubscriptionData::from_account_info(&empty).expect_err("empty");
    assert_eq!(err, SubscriptionError::DataTypeMismatch);
}

#[test]
fn inconsistent_counts_are_rejected() {
    let record = sample_record();
    let mut bytes = serialize_record(&record);
    // The share-list count sits right behind the address region.
    let second_count = 36 + 32 * 2;
    bytes[second_count] = 1;
    let err = SubscriptionData::from_account_info(&bytes).expect_err("counts differ");
    assert_eq!(err, SubscriptionError::DataTypeMismatch);
}

#[test]
fn oversized_owner_count_is_rejected() {
    let record = sample_record();
    let mut bytes = serialize_record(&record);
    bytes[32] = 6;
    bytes.resize(76 + 41 * 6, 0);
    let err = SubscriptionData::from_account_info(&bytes).expect_err("over the capacity limit");
    assert_eq!(err, SubscriptionError::DataTypeMismatch);
}

#[test]
fn negative_timestamps_are_rejected() {
    let record = sample_record();
    let mut bytes = serialize_record(&record);
    let paid_until_offset = 68 + 41 * 2;
    for i in 0..8 {
        bytes[paid_until_offset + i] = 0xff;
    }
    let err = SubscriptionData::from_account_info(&bytes).expect_err("timestamp out of range");
    assert_eq!(err, SubscriptionError::DataTypeMismatch);
}

#[test]
fn get_token_mint_reads_the_reference() {
    let record = sample_record();
    let bytes = serialize_record(&record);
    let mint = SubscriptionData::get_token_mint(&bytes);
    assert_eq!(mint.bytes, record.token_mint.bytes);
}
