//! Setting an account up and releasing it.

use crate::account::{
    all_beneficiaries_valid, all_schedules_fit, all_valid, AccountView, Beneficiary, DataAccount,
    Pubkey, MAX_BENEFICIARIES,
};
use crate::amount::{scale_amount, scaled};
use crate::error::VestingError;
use vstd::prelude::*;

verus! {

/// What setting an account up reads from the host: who asks, where the
/// deposit goes, and what the token mint and the funding wallet hold.
#[derive(Debug, Clone, Copy, PartialEq, Eq)]
pub struct Initialize {
    /// Who sets the account up.
    pub sender: Pubkey,
    /// The wallet that will hold the deposit.
    pub escrow_wallet: Pubkey,
    /// The token to vest.
    pub token_mint: Pubkey,
    /// The decimals that the token mint declares.
    pub mint_decimals: u8,
    /// The balance of the wallet that the deposit is withdrawn from.
    pub wallet_amount: u64,
}

/// A request to release an account: who asks, and when.
#[derive(Debug, Clone, Copy, PartialEq, Eq)]
pub struct Release {
    /// Who asks for the release.
    pub sender: Pubkey,
    /// The current Unix time.
    pub current_time: i64,
}

/// Why an account cannot be set up, if it cannot. The first rule that is
/// broken decides: the decimals must be those of the mint, the wallet must
/// hold the amount, there must be no more beneficiaries than an account
/// holds, each of them must be valid, and the deposit must fit 64 bits in
/// transfer units.
pub open spec fn initialize_rejection(
    ctx: Initialize,
    beneficiaries: Seq<Beneficiary>,
    amount: u64,
    decimals: u8,
) -> Option<VestingError> {
    if ctx.mint_decimals != decimals {
        Some(VestingError::InvalidDecimals)
    } else if amount > ctx.wallet_amount {
        Some(VestingError::InsufficientFunds)
    } else if beneficiaries.len() > MAX_BENEFICIARIES {
        Some(VestingError::TooManyBeneficiaries)
    } else if !all_valid(beneficiaries) {
        Some(VestingError::InvalidArgument)
    } else if scaled(amount as int, decimals) > u64::MAX {
        Some(VestingError::Overflow)
    } else {
        None
    }
}

/// The account that a setup creates: not yet released, with the
/// beneficiaries as given.
pub open spec fn initialized_account(
    ctx: Initialize,
    beneficiaries: Seq<Beneficiary>,
    amount: u64,
    decimals: u8,
) -> AccountView {
    AccountView {
        state: 0,
        token_amount: amount,
        initializer: ctx.sender,
        escrow_wallet: ctx.escrow_wallet,
        token_mint: ctx.token_mint,
        initialized_at: 0,
        beneficiaries,
        decimals,
        is_initialized: 1,
        contract_end_month: 0,
    }
}

/// Sets a vesting account up.
///
/// On success the result is the new account, which is well-formed and not
/// yet active, together with the deposit in transfer units that the host
/// moves from the funding wallet into escrow. A rejection creates nothing.
pub fn initialize(
    ctx: &Initialize,
    beneficiaries: Vec<Beneficiary>,
    amount: u64,
    decimals: u8,
) -> (outcome: Result<(DataAccount, u64), VestingError>)
    ensures
        match outcome {
            Ok((account, deposit)) => {
                &&& initialize_rejection(*ctx, beneficiaries@, amount, decimals) is None
                &&& account@ == initialized_account(*ctx, beneficiaries@, amount, decimals)
                &&& deposit == scaled(amount as int, decimals)
                &&& account@.wf()
            },
            Err(e) => initialize_rejection(*ctx, beneficiaries@, amount, decimals) == Some(e),
        },
{
    if ctx.mint_decimals != decimals {
        return Err(VestingError::InvalidDecimals);
    }
    if amount > ctx.wallet_amount {
        return Err(VestingError::InsufficientFunds);
    }
    if beneficiaries.len() > MAX_BENEFICIARIES {
        return Err(VestingError::TooManyBeneficiaries);
    }
    if !all_beneficiaries_valid(&beneficiaries) {
        return Err(VestingError::InvalidArgument);
    }
    let deposit: u64 = match scale_amount(amount, decimals) {
        Some(deposit) => deposit,
        None => {
            return Err(VestingError::Overflow);
        },
    };
    let account = DataAccount {
        state: 0,
        token_amount: amount,
        initializer: ctx.sender,
        escrow_wallet: ctx.escrow_wallet,
        token_mint: ctx.token_mint,
        initialized_at: 0,
        beneficiaries,
        decimals,
        is_initialized: 1,
        contract_end_month: 0,
    };
    Ok((account, deposit))
}

/// The account once it has been released with `state` at the time of `ctx`.
pub open spec fn released(account: AccountView, ctx: Release, state: u8) -> AccountView {
    AccountView { state, initialized_at: ctx.current_time as u64, ..account }
}

/// Why an account cannot be released, if it cannot. The first rule that is
/// broken decides: only the one who set the account up may release it, an
/// account is released once, and the release must leave a well-formed active
/// account, which asks for a state other than 0, a time that is not negative
/// and, counted from that time, schedules that the calendar can hold.
pub open spec fn release_rejection(account: AccountView, ctx: Release, state: u8) -> Option<
    VestingError,
> {
    if ctx.sender != account.initializer {
        Some(VestingError::InvalidSender)
    } else if account.is_active() {
        Some(VestingError::AlreadyInitialized)
    } else if state == 0 || ctx.current_time < 0 || !released(account, ctx, state).wf() {
        Some(VestingError::InvalidArgument)
    } else {
        None
    }
}

/// Releases an account: it becomes active, and the time of the release is
/// the moment from which every lockup is counted.
///
/// This happens once. A rejection leaves the account as it was; a release
/// leaves it well-formed.
pub fn release_lucia_vesting(ctx: &Release, data_account: &mut DataAccount, state: u8) -> (outcome:
    Result<(), VestingError>)
    ensures
        match outcome {
            Ok(_) => {
                &&& release_rejection(old(data_account)@, *ctx, state) is None
                &&& final(data_account)@ == released(old(data_account)@, *ctx, state)
                &&& final(data_account)@.wf()
            },
            Err(e) => {
                &&& release_rejection(old(data_account)@, *ctx, state) == Some(e)
                &&& *final(data_account) == *old(data_account)
            },
        },
{
    if !ctx.sender.same(&data_account.initializer) {
        return Err(VestingError::InvalidSender);
    }
    if data_account.state != 0 {
        return Err(VestingError::AlreadyInitialized);
    }
    if state == 0 || ctx.current_time < 0 {
        return Err(VestingError::InvalidArgument);
    }
    let now: u64 = ctx.current_time as u64;
    if data_account.beneficiaries.len() > MAX_BENEFICIARIES || !all_beneficiaries_valid(
        &data_account.beneficiaries,
    ) {
        return Err(VestingError::InvalidArgument);
    }
    if !all_schedules_fit(&data_account.beneficiaries, now) {
        return Err(VestingError::InvalidArgument);
    }
    data_account.state = state;
    data_account.initialized_at = now;
    Ok(())
}

} // verus!
