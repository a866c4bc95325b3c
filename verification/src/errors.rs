//! Errors that may be returned by the subscription library.
//!
//! Every precondition violation yields a distinct named error rather than
//! a generic failure, so callers can handle each case programmatically.

use vstd::prelude::*;

verus! {

/// Errors that may be returned by the subscription state machine.
#[derive(Clone, Copy, Debug, PartialEq, Eq, Structural)]
pub enum SubscriptionError {
    /// Account does not have the correct owner.
    IncorrectOwner,
    /// Lamport balance below the rent-exempt threshold.
    NotRentExempt,
    /// The subscription account specified is invalid.
    InvalidSubscriptionAccount,
    /// Balance too low to make the payment.
    BalanceTooLow,
    /// Failed to derive an account from seeds.
    DerivedKeyInvalid,
    /// Token transfer failed.
    TokenTransferFailed,
    /// Invalid authority.
    InvalidAuthority,
    /// Authority is not a signer.
    AuthorityNotSigner,
    /// Numerical overflow.
    NumericalOverflowError,
    /// Uninitialized.
    Uninitialized,
    /// An existing bid is already active.
    BidAlreadyActive,
    /// Incorrect mint specified; it must match the subscription's mint.
    IncorrectMint,
    /// Must reveal the price when ending a blinded subscription.
    MustReveal,
    /// The revealing hash is invalid.
    InvalidReveal,
    /// The pot for this bid is already empty.
    BidderPotEmpty,
    /// This is not a valid token program.
    InvalidTokenProgram,
    /// The escrow account's delegate should be none.
    DelegateShouldBeNone,
    /// The escrow account's close authority should be none.
    CloseAuthorityShouldBeNone,
    /// Data type mismatch.
    DataTypeMismatch,
    /// A bid must be a multiple of the tick size.
    BidMustBeMultipleOfTickSize,
    /// During the gap window, the gap between the next lowest bid must be
    /// of a certain percentage.
    GapBetweenBidsTooSmall,
    /// The gap tick size percentage must be between 0 and 100.
    InvalidGapTickSizePercentage,
    /// There are more than five owners, which is the hard capacity limit.
    MaxOwnersExceeded,
    /// The numbers of owner addresses and shares differ, but they must be
    /// the same.
    OwnerAddressesToSharesMismatch,
    /// The subscription account does not own the escrow token account.
    FundsTokenAccountOwnerMismatch,
    /// There is no funds subscription account associated to this account.
    SubscriptionFundsAccountDoesNotExist,
    /// The withdrawer is not listed as an owner of this subscription.
    WithdrawerIsNotAnOwner,
    /// The withdrawal exceeds the amount that belongs to the co-owner
    /// according to their share.
    WithdrawalOverMaxAllowed,
}

impl SubscriptionError {
    /// The stable numeric code of this error, in declaration order.
    pub open spec fn spec_code(self) -> u32 {
        match self {
            SubscriptionError::IncorrectOwner => 0,
            SubscriptionError::NotRentExempt => 1,
            SubscriptionError::InvalidSubscriptionAccount => 2,
            SubscriptionError::BalanceTooLow => 3,
            SubscriptionError::DerivedKeyInvalid => 4,
            SubscriptionError::TokenTransferFailed => 5,
            SubscriptionError::InvalidAuthority => 6,
            SubscriptionError::AuthorityNotSigner => 7,
            SubscriptionError::NumericalOverflowError => 8,
            SubscriptionError::Uninitialized => 9,
            SubscriptionError::BidAlreadyActive => 10,
            SubscriptionError::IncorrectMint => 11,
            SubscriptionError::MustReveal => 12,
            SubscriptionError::InvalidReveal => 13,
            SubscriptionError::BidderPotEmpty => 14,
            SubscriptionError::InvalidTokenProgram => 15,
            SubscriptionError::DelegateShouldBeNone => 16,
            SubscriptionError::CloseAuthorityShouldBeNone => 17,
            SubscriptionError::DataTypeMismatch => 18,
            SubscriptionError::BidMustBeMultipleOfTickSize => 19,
            SubscriptionError::GapBetweenBidsTooSmall => 20,
            SubscriptionError::InvalidGapTickSizePercentage => 21,
            SubscriptionError::MaxOwnersExceeded => 22,
            SubscriptionError::OwnerAddressesToSharesMismatch => 23,
            SubscriptionError::FundsTokenAccountOwnerMismatch => 24,
            SubscriptionError::SubscriptionFundsAccountDoesNotExist => 25,
            SubscriptionError::WithdrawerIsNotAnOwner => 26,
            SubscriptionError::WithdrawalOverMaxAllowed => 27,
        }
    }

    /// The stable numeric code of this error, for hosts that surface
    /// errors as numbers.
    pub fn code(&self) -> (c: u32)
        ensures
            c == self.spec_code(),
    {
        match self {
            SubscriptionError::IncorrectOwner => 0,
            SubscriptionError::NotRentExempt => 1,
            SubscriptionError::InvalidSubscriptionAccount => 2,
            SubscriptionError::BalanceTooLow => 3,
            SubscriptionError::DerivedKeyInvalid => 4,
            SubscriptionError::TokenTransferFailed => 5,
            SubscriptionError::InvalidAuthority => 6,
            SubscriptionError::AuthorityNotSigner => 7,
            SubscriptionError::NumericalOverflowError => 8,
            SubscriptionError::Uninitialized => 9,
            SubscriptionError::BidAlreadyActive => 10,
            SubscriptionError::IncorrectMint => 11,
            SubscriptionError::MustReveal => 12,
            SubscriptionError::InvalidReveal => 13,
            SubscriptionError::BidderPotEmpty => 14,
            SubscriptionError::InvalidTokenProgram => 15,
            SubscriptionError::DelegateShouldBeNone => 16,
            SubscriptionError::CloseAuthorityShouldBeNone => 17,
            SubscriptionError::DataTypeMismatch => 18,
            SubscriptionError::BidMustBeMultipleOfTickSize => 19,
            SubscriptionError::GapBetweenBidsTooSmall => 20,
            SubscriptionError::InvalidGapTickSizePercentage => 21,
            SubscriptionError::MaxOwnersExceeded => 22,
            SubscriptionError::OwnerAddressesToSharesMismatch => 23,
            SubscriptionError::FundsTokenAccountOwnerMismatch => 24,
            SubscriptionError::SubscriptionFundsAccountDoesNotExist => 25,
            SubscriptionError::WithdrawerIsNotAnOwner => 26,
            SubscriptionError::WithdrawalOverMaxAllowed => 27,
        }
    }

    /// A human-readable description of this error.
    pub fn message(&self) -> &'static str {
        match self {
            SubscriptionError::IncorrectOwner => "Account does not have correct owner",
            SubscriptionError::NotRentExempt => "Lamport balance below rent-exempt threshold",
            SubscriptionError::InvalidSubscriptionAccount => "Subscription account specified is invalid.",
            SubscriptionError::BalanceTooLow => "Balance too low to make bid.",
            SubscriptionError::DerivedKeyInvalid => "Failed to derive an account from seeds.",
            SubscriptionError::TokenTransferFailed => "Token transfer failed",
            SubscriptionError::InvalidAuthority => "Invalid authority",
            SubscriptionError::AuthorityNotSigner => "Authority not signer",
            SubscriptionError::NumericalOverflowError => "Numerical overflow",
            SubscriptionError::Uninitialized => "Uninitialized",
            SubscriptionError::BidAlreadyActive => "Existing Bid is already active.",
            SubscriptionError::IncorrectMint => "Incorrect mint specified, must match subscription.",
            SubscriptionError::MustReveal => "Must reveal price when ending a blinded subscription.",
            SubscriptionError::InvalidReveal => "The revealing hash is invalid.",
            SubscriptionError::BidderPotEmpty => "The pot for this bid is already empty.",
            SubscriptionError::InvalidTokenProgram => " This is not a valid token program",
            SubscriptionError::DelegateShouldBeNone => "Accept payment delegate should be none",
            SubscriptionError::CloseAuthorityShouldBeNone => "Accept payment close authority should be none",
            SubscriptionError::DataTypeMismatch => "Data type mismatch",
            SubscriptionError::BidMustBeMultipleOfTickSize => "Bid must be multiple of tick size",
            SubscriptionError::GapBetweenBidsTooSmall => "During the gap window, gap between next lowest bid must be of a certain percentage",
            SubscriptionError::InvalidGapTickSizePercentage => "Gap tick size percentage must be between 0 and 100",
            SubscriptionError::MaxOwnersExceeded => "There are more than 5 owners, which is the hard-limit for Metaplex.",
            SubscriptionError::OwnerAddressesToSharesMismatch => "The number of addresses and shares are different but they must be the same.",
            SubscriptionError::FundsTokenAccountOwnerMismatch => "This subscription account does not own the actual token account.",
            SubscriptionError::SubscriptionFundsAccountDoesNotExist => "There is no funds subscription account associated to this account.",
            SubscriptionError::WithdrawerIsNotAnOwner => "The withdrawer is not listed as an owner of this account.",
            SubscriptionError::WithdrawalOverMaxAllowed => "The withdrawal exceeds the amount that belongs to the co-owner according to their share.",
        }
    }
}

} // verus!
