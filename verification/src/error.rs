//! The rejections that the vesting operations can answer with.

use vstd::prelude::*;

verus! {

/// Why an operation was refused.
#[derive(Debug, Clone, Copy, PartialEq, Eq, Structural)]
pub enum VestingError {
    /// The sender is not the one who set the account up.
    InvalidSender,
    /// Only the issuer of the contract may do this.
    Unauthorized,
    /// A parameter is outside what the vesting rules admit.
    InvalidArgument,
    /// The token mint is not the one the account was set up for.
    InvalidTokenMint,
    /// The decimals given do not match those of the token mint.
    InvalidDecimals,
    /// More beneficiaries than an account can hold.
    TooManyBeneficiaries,
    /// Nothing new has unlocked since the last claim.
    ClaimNotAllowed,
    /// The account has not been released yet.
    ReleaseNotCalled,
    /// The account has been released already.
    AlreadyInitialized,
    /// The sender is not among the beneficiaries.
    BeneficiaryNotFound,
    /// The lockup period has not run out.
    LockupNotExpired,
    /// The funding wallet holds less than the amount to deposit.
    InsufficientFunds,
    /// An amount does not fit the integer range once scaled.
    Overflow,
}

} // verus!
