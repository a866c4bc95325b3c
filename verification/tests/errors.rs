use spl_subscription::errors::SubscriptionError;

#[test]
fn codes_follow_declaration_order() {
    assert_eq!(SubscriptionError::IncorrectOwner.code(), 0);
    assert_eq!(SubscriptionError::InvalidSubscriptionAccount.code(), 2);
    assert_eq!(SubscriptionError::BalanceTooLow.code(), 3);
    assert_eq!(SubscriptionError::DerivedKeyInvalid.code(), 4);
    assert_eq!(SubscriptionError::NumericalOverflowError.code(), 8);
    assert_eq!(SubscriptionError::IncorrectMint.code(), 11);
    assert_eq!(SubscriptionError::DelegateShouldBeNone.code(), 16);
    assert_eq!(SubscriptionError::CloseAuthorityShouldBeNone.code(), 17);
    assert_eq!(SubscriptionError::DataTypeMismatch.code(), 18);
    assert_eq!(SubscriptionError::MaxOwnersExceeded.code(), 22);
    assert_eq!(SubscriptionError::OwnerAddressesToSharesMismatch.code(), 23);
    assert_eq!(SubscriptionError::FundsTokenAccountOwnerMismatch.code(), 24);
    assert_eq!(SubscriptionError::WithdrawerIsNotAnOwner.code(), 26);
    assert_eq!(SubscriptionError::WithdrawalOverMaxAllowed.code(), 27);
}

#[test]
fn messages_name_the_violation() {
    assert_eq!(
        SubscriptionError::MaxOwnersExceeded.message(),
        "There are more than 5 owners, which is the hard-limit for Metaplex."
    );
    assert_eq!(
        SubscriptionError::WithdrawerIsNotAnOwner.message(),
        "The withdrawer is not listed as an owner of this account."
    );
    assert_eq!(
        SubscriptionError::WithdrawalOverMaxAllowed.message(),
        "The withdrawal exceeds the amount that belongs to the co-owner according to their share."
    );
    assert_eq!(SubscriptionError::BalanceTooLow.message(), "Balance too low to make bid.");
}
