//! Token vesting for a fixed set of beneficiaries.
//!
//! The crate derives an unlock schedule from a handful of parameters and
//! reconciles it against what a beneficiary has already been paid, so that a
//! claim never pays twice and never wraps. It holds no state of its own and
//! performs no transfer: the host ledger stores the accounts, moves the
//! tokens and records a claim once the transfer has gone through.

pub mod error;
pub mod account;
pub mod clock;
pub mod calculate;
pub mod amount;
pub mod totals;
pub mod claim;
pub mod setup;

pub use crate::account::{AccountView, Beneficiary, DataAccount, Pubkey, MAX_BENEFICIARIES};
pub use crate::amount::{checked_pow10, percent_of, scale_amount};
pub use crate::calculate::{calculate_schedule, ScheduleEntry};
pub use crate::claim::{claim_lux, find_beneficiary, record_claim, Claim, Payout};
pub use crate::setup::{initialize, release_lucia_vesting, Initialize, Release};
pub use crate::totals::sum_claimable;
pub use crate::error::VestingError;
