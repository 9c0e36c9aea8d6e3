//! Reconciling a schedule with what a beneficiary has been paid.
//!
//! `claim_lux` decides and changes nothing. The host moves the tokens and,
//! only once that transfer has succeeded, calls `record_claim`.

use crate::account::{AccountView, Beneficiary, DataAccount, Pubkey};
use crate::amount::{percent_of, scale_amount, scaled};
use crate::calculate::{calculate_schedule, installment, schedule, schedule_len};
use crate::clock::representable;
use crate::error::VestingError;
use crate::totals::{
    installments_among, lemma_installment_bounds, lemma_prefix_total_bound,
    lemma_prefix_total_when_open, sum_claimable, total_claimable,
};
use vstd::prelude::*;

verus! {

/// A request to claim: who asks, and when.
#[derive(Debug, Clone, Copy, PartialEq, Eq)]
pub struct Claim {
    /// The beneficiary who claims.
    pub sender: Pubkey,
    /// The current Unix time.
    pub current_time: i64,
}

/// What a successful claim pays.
#[derive(Debug, Clone, Copy, PartialEq, Eq)]
pub struct Payout {
    /// Where the beneficiary stands among the account's beneficiaries.
    pub index: usize,
    /// The newly unlocked amount, in base units: what `record_claim` adds to
    /// the beneficiary's claimed tokens.
    pub amount: u64,
    /// The same amount in transfer units: what the host moves out of escrow.
    pub transfer_amount: u64,
}

/// The place of the first beneficiary whose key is `key`, if there is one.
pub open spec fn position_of(beneficiaries: Seq<Beneficiary>, key: Pubkey) -> Option<int>
    decreases beneficiaries.len(),
{
    if beneficiaries.len() == 0 {
        None
    } else {
        match position_of(beneficiaries.drop_last(), key) {
            Some(i) => Some(i),
            None => if beneficiaries.last().key == key {
                Some(beneficiaries.len() - 1)
            } else {
                None
            },
        }
    }
}

/// `position_of` gives the first match, and `None` only where nothing matches.
pub proof fn lemma_position_of(beneficiaries: Seq<Beneficiary>, key: Pubkey)
    ensures
        match position_of(beneficiaries, key) {
            Some(i) => {
                &&& 0 <= i < beneficiaries.len()
                &&& beneficiaries[i].key == key
                &&& forall|j: int| 0 <= j < i ==> (#[trigger] beneficiaries[j]).key != key
            },
            None => forall|j: int|
                0 <= j < beneficiaries.len() ==> (#[trigger] beneficiaries[j]).key != key,
        },
    decreases beneficiaries.len(),
{
    if beneficiaries.len() > 0 {
        let front = beneficiaries.drop_last();
        lemma_position_of(front, key);
        assert(forall|j: int| 0 <= j < front.len() ==> front[j] == beneficiaries[j]);
    }
}

/// Looks a beneficiary up by key: the first one that has it, or `None` where
/// no beneficiary does.
pub fn find_beneficiary(beneficiaries: &Vec<Beneficiary>, key: &Pubkey) -> (found: Option<usize>)
    ensures
        match found {
            Some(i) => {
                &&& i < beneficiaries@.len()
                &&& beneficiaries@[i as int].key == *key
                &&& forall|j: int| 0 <= j < i ==> (#[trigger] beneficiaries@[j]).key != *key
                &&& position_of(beneficiaries@, *key) == Some(i as int)
            },
            None => {
                &&& forall|j: int|
                    0 <= j < beneficiaries@.len() ==> (#[trigger] beneficiaries@[j]).key != *key
                &&& position_of(beneficiaries@, *key) is None
            },
        },
{
    let mut i: usize = 0;
    while i < beneficiaries.len()
        invariant
            i <= beneficiaries@.len(),
            forall|j: int| 0 <= j < i ==> (#[trigger] beneficiaries@[j]).key != *key,
        decreases beneficiaries@.len() - i,
    {
        if beneficiaries[i].key.same(key) {
            proof {
                lemma_position_of(beneficiaries@, *key);
            }
            return Some(i);
        }
        i = i + 1;
    }
    proof {
        lemma_position_of(beneficiaries@, *key);
    }
    None
}

/// Everything that has unlocked for `beneficiary` by `current_time`, paid or
/// not, on an account released at `initialized_at`: the total of the
/// schedule that starts when the lockup ends.
pub open spec fn unlocked_total(
    beneficiary: Beneficiary,
    initialized_at: u64,
    current_time: i64,
) -> int {
    total_claimable(
        schedule(
            beneficiary.lockup_end(initialized_at),
            beneficiary.vesting_end_month as int,
            beneficiary.unlock_duration as int,
            beneficiary.allocated_tokens as int,
            beneficiary.confirm_round as int,
        ),
        current_time,
        beneficiary.confirm_round,
        beneficiary.initial_unlock() as u64,
    )
}

/// What is unlocked and not yet paid: the unlocked total less the claimed
/// tokens, and nothing where more has been claimed than has unlocked.
pub open spec fn claimable_amount(
    beneficiary: Beneficiary,
    initialized_at: u64,
    current_time: i64,
) -> int {
    let total = unlocked_total(beneficiary, initialized_at, current_time);
    if total > beneficiary.claimed_tokens {
        total - beneficiary.claimed_tokens
    } else {
        0
    }
}

/// The answer to a claim, rule by rule: the account must be active, the
/// sender must be a beneficiary, the lockup must have ended, something must
/// be unlocked and unpaid, and that amount must fit 64 bits in transfer units.
pub open spec fn claim_outcome(account: AccountView, ctx: Claim) -> Result<Payout, VestingError> {
    if !account.is_active() {
        Err(VestingError::ReleaseNotCalled)
    } else {
        match position_of(account.beneficiaries, ctx.sender) {
            None => Err(VestingError::BeneficiaryNotFound),
            Some(index) => {
                let beneficiary = account.beneficiaries[index];
                let amount = claimable_amount(
                    beneficiary,
                    account.initialized_at,
                    ctx.current_time,
                );
                if ctx.current_time < beneficiary.lockup_end(account.initialized_at) {
                    Err(VestingError::LockupNotExpired)
                } else if amount == 0 {
                    Err(VestingError::ClaimNotAllowed)
                } else if scaled(amount, account.decimals) > u64::MAX {
                    Err(VestingError::Overflow)
                } else {
                    Ok(
                        Payout {
                            index: index as usize,
                            amount: amount as u64,
                            transfer_amount: scaled(amount, account.decimals) as u64,
                        },
                    )
                }
            },
        }
    }
}

/// How many installments a beneficiary's schedule lists: all of them while
/// the confirmed round is round 0 or 1, fewer as it moves on, none once it
/// lies beyond the last round.
pub open spec fn installments_listed(beneficiary: Beneficiary) -> int {
    installments_among(
        beneficiary.confirm_round as int,
        schedule_len(beneficiary.vesting_end_month as int, beneficiary.confirm_round as int),
    )
}

/// What round 0 adds once it has opened: the initial unlock while the
/// confirmed round is round 0, nothing once it has moved on.
pub open spec fn initial_listed(beneficiary: Beneficiary) -> int {
    if beneficiary.confirm_round == 0 {
        beneficiary.initial_unlock()
    } else {
        0
    }
}

/// Whatever the time, what has unlocked is at most the initial unlock, where
/// round 0 is payable, and every installment that the schedule lists. The
/// installments alone never exceed the allocation.
pub proof fn lemma_unlocked_total_bound(
    beneficiary: Beneficiary,
    initialized_at: u64,
    current_time: i64,
)
    requires
        beneficiary.valid(),
    ensures
        0 <= beneficiary.initial_unlock() <= beneficiary.allocated_tokens,
        0 <= installments_listed(beneficiary) <= beneficiary.vesting_end_month,
        0 <= unlocked_total(beneficiary, initialized_at, current_time) <= initial_listed(
            beneficiary,
        ) + installment(
            beneficiary.allocated_tokens as int,
            beneficiary.vesting_end_month as int,
        ) * installments_listed(beneficiary),
        installment(beneficiary.allocated_tokens as int, beneficiary.vesting_end_month as int)
            * installments_listed(beneficiary) <= beneficiary.allocated_tokens
            - beneficiary.allocated_tokens % beneficiary.vesting_end_month,
        unlocked_total(beneficiary, initialized_at, current_time) <= u64::MAX,
{
    let rounds = beneficiary.vesting_end_month as int;
    let allocated = beneficiary.allocated_tokens as int;
    let first = beneficiary.confirm_round as int;
    let percent = beneficiary.unlock_tge as int;
    let share = installment(allocated, rounds);
    let len = schedule_len(rounds, first);
    assert(0 <= allocated * percent <= allocated * 100) by (nonlinear_arith)
        requires
            0 <= allocated,
            0 <= percent <= 100,
    ;
    lemma_prefix_total_bound(
        beneficiary.lockup_end(initialized_at),
        rounds,
        beneficiary.unlock_duration as int,
        allocated,
        beneficiary.confirm_round,
        len,
        current_time,
        beneficiary.initial_unlock() as u64,
    );
    lemma_installment_bounds(allocated, rounds);
    let counted = installments_listed(beneficiary);
    assert(share * counted <= share * rounds) by (nonlinear_arith)
        requires
            0 <= share,
            counted <= rounds,
    ;
}

/// Once the last installment has opened, what has unlocked is exactly the
/// initial unlock, where round 0 is payable, and every installment that the
/// schedule lists. With the confirmed round at 0 or 1 the installments fall
/// short of the allocation by its remainder on division by their number,
/// which is less than one base unit for each of them.
pub proof fn lemma_fully_vested_total(
    beneficiary: Beneficiary,
    initialized_at: u64,
    current_time: i64,
)
    requires
        beneficiary.valid(),
        current_time >= beneficiary.vesting_end(initialized_at),
    ensures
        unlocked_total(beneficiary, initialized_at, current_time) == initial_listed(beneficiary)
            + installment(
            beneficiary.allocated_tokens as int,
            beneficiary.vesting_end_month as int,
        ) * installments_listed(beneficiary),
        beneficiary.confirm_round <= 1 ==> unlocked_total(
            beneficiary,
            initialized_at,
            current_time,
        ) == initial_listed(beneficiary) + beneficiary.allocated_tokens
            - beneficiary.allocated_tokens % beneficiary.vesting_end_month,
        0 <= beneficiary.allocated_tokens % beneficiary.vesting_end_month
            < beneficiary.vesting_end_month,
{
    let rounds = beneficiary.vesting_end_month as int;
    let allocated = beneficiary.allocated_tokens as int;
    let first = beneficiary.confirm_round as int;
    let percent = beneficiary.unlock_tge as int;
    let len = schedule_len(rounds, first);
    assert(0 <= allocated * percent <= allocated * 100) by (nonlinear_arith)
        requires
            0 <= allocated,
            0 <= percent <= 100,
    ;
    lemma_prefix_total_when_open(
        beneficiary.lockup_end(initialized_at),
        rounds,
        beneficiary.unlock_duration as int,
        allocated,
        beneficiary.confirm_round,
        len,
        current_time,
        beneficiary.initial_unlock() as u64,
    );
    lemma_installment_bounds(allocated, rounds);
}

/// Decides a claim: what to pay the sender now, or why nothing is paid.
///
/// The answer is `ReleaseNotCalled` while the account is not active,
/// `BeneficiaryNotFound` where no beneficiary has the sender's key,
/// `LockupNotExpired` before the beneficiary's lockup has ended,
/// `ClaimNotAllowed` where nothing has unlocked beyond what was paid, and
/// `Overflow` where the amount does not fit 64 bits once scaled, in that
/// order. Otherwise it names the beneficiary, the newly unlocked amount and
/// that amount in transfer units. The account is left as it is.
pub fn claim_lux(ctx: &Claim, data_account: &DataAccount) -> (outcome: Result<
    Payout,
    VestingError,
>)
    requires
        data_account@.wf(),
    ensures
        outcome == claim_outcome(data_account@, *ctx),
{
    if data_account.state == 0 {
        return Err(VestingError::ReleaseNotCalled);
    }
    let index: usize = match find_beneficiary(&data_account.beneficiaries, &ctx.sender) {
        Some(index) => index,
        None => {
            return Err(VestingError::BeneficiaryNotFound);
        },
    };
    let beneficiary: Beneficiary = data_account.beneficiaries[index];
    assert(beneficiary.valid());
    assert(representable(beneficiary.vesting_end(data_account.initialized_at)));
    let lockup_end: i64 = (data_account.initialized_at as i64) + beneficiary.lockup_period;
    if ctx.current_time < lockup_end {
        return Err(VestingError::LockupNotExpired);
    }
    let entries = calculate_schedule(
        lockup_end,
        beneficiary.vesting_end_month as i64,
        beneficiary.unlock_duration as i64,
        beneficiary.allocated_tokens as i64,
        beneficiary.confirm_round,
    );
    let initial_unlock: u64 = percent_of(beneficiary.allocated_tokens, beneficiary.unlock_tge);
    let unlocked: u128 = sum_claimable(
        &entries,
        ctx.current_time,
        beneficiary.confirm_round,
        initial_unlock,
    );
    proof {
        lemma_unlocked_total_bound(beneficiary, data_account.initialized_at, ctx.current_time);
    }
    let total: u64 = unlocked as u64;
    let amount: u64 = total.saturating_sub(beneficiary.claimed_tokens);
    if amount == 0 {
        return Err(VestingError::ClaimNotAllowed);
    }
    match scale_amount(amount, data_account.decimals) {
        Some(transfer_amount) => Ok(Payout { index, amount, transfer_amount }),
        None => Err(VestingError::Overflow),
    }
}

/// The account after `amount` has been added to what the beneficiary at
/// `index` has claimed. Nothing else changes.
pub open spec fn with_claim(account: AccountView, index: int, amount: u64) -> AccountView {
    let beneficiary = account.beneficiaries[index];
    AccountView {
        beneficiaries: account.beneficiaries.update(
            index,
            Beneficiary {
                claimed_tokens: (beneficiary.claimed_tokens + amount) as u64,
                ..beneficiary
            },
        ),
        ..account
    }
}

/// Why a payout cannot be recorded, if it cannot: it names no beneficiary of
/// the account, or the claimed tokens would leave the 64-bit range.
pub open spec fn record_rejection(account: AccountView, payout: Payout) -> Option<VestingError> {
    if payout.index >= account.beneficiaries.len() {
        Some(VestingError::BeneficiaryNotFound)
    } else if account.beneficiaries[payout.index as int].claimed_tokens + payout.amount
        > u64::MAX {
        Some(VestingError::Overflow)
    } else {
        None
    }
}

/// Records a payout that the host has transferred: the beneficiary's claimed
/// tokens grow by the payout's amount in base units.
///
/// Where the payout names no beneficiary of the account, or the sum would
/// overflow, the account stays as it was. A well-formed account stays
/// well-formed.
pub fn record_claim(data_account: &mut DataAccount, payout: &Payout) -> (outcome: Result<
    (),
    VestingError,
>)
    ensures
        match outcome {
            Ok(_) => {
                &&& record_rejection(old(data_account)@, *payout) is None
                &&& final(data_account)@ == with_claim(
                    old(data_account)@,
                    payout.index as int,
                    payout.amount,
                )
            },
            Err(e) => {
                &&& record_rejection(old(data_account)@, *payout) == Some(e)
                &&& *final(data_account) == *old(data_account)
            },
        },
        old(data_account)@.wf() ==> final(data_account)@.wf(),
{
    if payout.index >= data_account.beneficiaries.len() {
        return Err(VestingError::BeneficiaryNotFound);
    }
    let mut beneficiary: Beneficiary = data_account.beneficiaries[payout.index];
    match beneficiary.claimed_tokens.checked_add(payout.amount) {
        Some(claimed) => {
            beneficiary.claimed_tokens = claimed;
            data_account.beneficiaries[payout.index] = beneficiary;
            proof {
                let before = old(data_account)@;
                let after = data_account@;
                assert(after.beneficiaries =~= with_claim(
                    before,
                    payout.index as int,
                    payout.amount,
                ).beneficiaries);
                if before.wf() {
                    lemma_with_claim_keeps_wf(before, payout.index as int, payout.amount);
                }
            }
            Ok(())
        },
        None => Err(VestingError::Overflow),
    }
}

/// Recording a claim keeps a well-formed account well-formed: it touches
/// nothing that the invariant reads.
pub proof fn lemma_with_claim_keeps_wf(account: AccountView, index: int, amount: u64)
    requires
        account.wf(),
        0 <= index < account.beneficiaries.len(),
    ensures
        with_claim(account, index, amount).wf(),
{
    let after = with_claim(account, index, amount);
    assert forall|i: int| 0 <= i < after.beneficiaries.len() implies (
    #[trigger] after.beneficiaries[i]).valid() by {
        assert(account.beneficiaries[i].valid());
    }
    if after.is_active() {
        assert forall|i: int| 0 <= i < after.beneficiaries.len() implies representable(
            (#[trigger] after.beneficiaries[i]).vesting_end(after.initialized_at),
        ) by {
            assert(representable(account.beneficiaries[i].vesting_end(account.initialized_at)));
        }
    }
}

/// A claim that has been paid and recorded cannot be made again: asked once
/// more at the same time, the answer is `ClaimNotAllowed`.
pub proof fn lemma_repeated_claim_is_rejected(account: AccountView, ctx: Claim)
    requires
        account.wf(),
        claim_outcome(account, ctx) is Ok,
    ensures
        ({
            let payout = claim_outcome(account, ctx)->Ok_0;
            &&& record_rejection(account, payout) is None
            &&& with_claim(account, payout.index as int, payout.amount).wf()
            &&& claim_outcome(with_claim(account, payout.index as int, payout.amount), ctx) == Err::<
                Payout,
                VestingError,
            >(VestingError::ClaimNotAllowed)
        }),
{
    let payout = claim_outcome(account, ctx)->Ok_0;
    lemma_position_of(account.beneficiaries, ctx.sender);
    let index = position_of(account.beneficiaries, ctx.sender)->Some_0;
    let beneficiary = account.beneficiaries[index];
    assert(beneficiary.valid());
    lemma_unlocked_total_bound(beneficiary, account.initialized_at, ctx.current_time);
    let after = with_claim(account, index, payout.amount);
    let paid = after.beneficiaries[index];
    lemma_with_claim_keeps_wf(account, index, payout.amount);
    lemma_position_of(after.beneficiaries, ctx.sender);
    assert(after.beneficiaries[index].key == ctx.sender);
    assert forall|j: int| 0 <= j < after.beneficiaries.len() implies (
    #[trigger] after.beneficiaries[j]).key == account.beneficiaries[j].key by {}
    assert(position_of(after.beneficiaries, ctx.sender) == Some(index));
    assert(paid.claimed_tokens == unlocked_total(
        beneficiary,
        account.initialized_at,
        ctx.current_time,
    ));
    assert(unlocked_total(paid, after.initialized_at, ctx.current_time) == unlocked_total(
        beneficiary,
        account.initialized_at,
        ctx.current_time,
    ));
}

/// A beneficiary whose recorded claims come from `claim_lux` is never paid
/// more than the allocation, provided that round 0 pays nothing beyond what
/// the installments leave over: the confirmed round has moved past round 0,
/// or the initial unlock is no more than the remainder of the allocation on
/// division by the number of installments.
pub proof fn lemma_claimed_within_allocation(account: AccountView, ctx: Claim)
    requires
        account.wf(),
        claim_outcome(account, ctx) is Ok,
        ({
            let beneficiary = account.beneficiaries[claim_outcome(account, ctx)->Ok_0.index as int];
            beneficiary.confirm_round > 0 || beneficiary.initial_unlock()
                <= beneficiary.allocated_tokens % beneficiary.vesting_end_month
        }),
    ensures
        ({
            let payout = claim_outcome(account, ctx)->Ok_0;
            let after = with_claim(account, payout.index as int, payout.amount);
            after.beneficiaries[payout.index as int].claimed_tokens
                <= account.beneficiaries[payout.index as int].allocated_tokens
        }),
{
    lemma_position_of(account.beneficiaries, ctx.sender);
    let index = position_of(account.beneficiaries, ctx.sender)->Some_0;
    let beneficiary = account.beneficiaries[index];
    assert(beneficiary.valid());
    lemma_unlocked_total_bound(beneficiary, account.initialized_at, ctx.current_time);
}

/// Whatever the beneficiary, a recorded claim leaves the claimed tokens at
/// what has unlocked, which is no more than the allocation and the initial
/// unlock together.
pub proof fn lemma_claimed_within_allocation_and_initial_unlock(account: AccountView, ctx: Claim)
    requires
        account.wf(),
        claim_outcome(account, ctx) is Ok,
    ensures
        ({
            let payout = claim_outcome(account, ctx)->Ok_0;
            let beneficiary = account.beneficiaries[payout.index as int];
            let after = with_claim(account, payout.index as int, payout.amount);
            &&& after.beneficiaries[payout.index as int].claimed_tokens == unlocked_total(
                beneficiary,
                account.initialized_at,
                ctx.current_time,
            )
            &&& after.beneficiaries[payout.index as int].claimed_tokens
                <= beneficiary.allocated_tokens + initial_listed(beneficiary)
        }),
{
    lemma_position_of(account.beneficiaries, ctx.sender);
    let index = position_of(account.beneficiaries, ctx.sender)->Some_0;
    let beneficiary = account.beneficiaries[index];
    assert(beneficiary.valid());
    lemma_unlocked_total_bound(beneficiary, account.initialized_at, ctx.current_time);
}

/// Scaling never wraps: a claim that would not fit 64 bits in transfer units
/// is answered with `Overflow`, and every payout carries the exact product
/// of its amount and ten to the power of the account's decimals.
pub proof fn lemma_scaling_is_exact_or_rejected(account: AccountView, ctx: Claim)
    requires
        account.wf(),
    ensures
        claim_outcome(account, ctx) matches Ok(payout) ==> {
            &&& payout.amount > 0
            &&& payout.transfer_amount == payout.amount * vstd::arithmetic::power::pow(
                10,
                account.decimals as nat,
            )
        },
        ({
            let found = position_of(account.beneficiaries, ctx.sender);
            &&& account.is_active()
            &&& found matches Some(index)
            &&& ctx.current_time >= account.beneficiaries[index].lockup_end(account.initialized_at)
            &&& scaled(
                claimable_amount(
                    account.beneficiaries[index],
                    account.initialized_at,
                    ctx.current_time,
                ),
                account.decimals,
            ) > u64::MAX
        }) ==> claim_outcome(account, ctx) == Err::<Payout, VestingError>(VestingError::Overflow),
{
    lemma_position_of(account.beneficiaries, ctx.sender);
    if account.is_active() {
        if let Some(index) = position_of(account.beneficiaries, ctx.sender) {
            let beneficiary = account.beneficiaries[index];
            assert(beneficiary.valid());
            lemma_unlocked_total_bound(beneficiary, account.initialized_at, ctx.current_time);
            let amount = claimable_amount(beneficiary, account.initialized_at, ctx.current_time);
            let unit = vstd::arithmetic::power::pow(10, account.decimals as nat);
            vstd::arithmetic::power::lemma_pow_positive(10, account.decimals as nat);
            assert(amount * unit >= 0) by (nonlinear_arith)
                requires
                    amount >= 0,
                    unit > 0,
            ;
        }
    }
}

} // verus!
