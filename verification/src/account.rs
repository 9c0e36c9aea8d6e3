//! The records that a vesting arrangement keeps: the account and its
//! beneficiaries.

use crate::clock::{representable, MAX_TIMESTAMP};
use vstd::prelude::*;

verus! {

/// The most beneficiaries that one account holds.
pub const MAX_BENEFICIARIES: usize = 50;

/// The identity of a participant: 32 bytes that the library only compares.
#[derive(Debug, Clone, Copy, PartialEq, Eq, Hash, Default)]
pub struct Pubkey {
    pub bytes: [u8; 32],
}

impl Pubkey {
    /// Whether two identities are the same, byte for byte.
    pub fn same(&self, other: &Pubkey) -> (same: bool)
        ensures
            same == (*self == *other),
    {
        let mut i: usize = 0;
        while i < 32
            invariant
                i <= 32,
                forall|k: int| 0 <= k < i ==> self.bytes[k] == other.bytes[k],
            decreases 32 - i,
        {
            if self.bytes[i] != other.bytes[i] {
                return false;
            }
            i = i + 1;
        }
        assert(self.bytes =~= other.bytes);
        true
    }
}

/// One participant of a vesting arrangement.
#[derive(Debug, Clone, Copy, PartialEq, Eq, Default)]
pub struct Beneficiary {
    /// Who may claim.
    pub key: Pubkey,
    /// The whole entitlement, in base units. It never changes.
    pub allocated_tokens: u64,
    /// What has been paid so far, in base units. It only grows.
    pub claimed_tokens: u64,
    /// The share of the allocation, in whole percent, that round 0 releases
    /// the moment the lockup ends.
    pub unlock_tge: u8,
    /// Seconds between the release of the account and the end of the lockup.
    pub lockup_period: i64,
    /// Seconds over which the installments are spread.
    pub unlock_duration: u64,
    /// The number of installments that follow round 0.
    pub vesting_end_month: u64,
    /// The first round that is payable: earlier rounds have been confirmed
    /// away and pay nothing, however much time has passed.
    pub confirm_round: u8,
}

impl Beneficiary {
    /// Whether the parameters describe a schedule at all: at least one
    /// installment, a percentage of at most 100, no negative lockup, and
    /// amounts and durations that signed 64-bit arithmetic can hold.
    pub open spec fn valid(&self) -> bool {
        &&& 0 < self.vesting_end_month <= i64::MAX
        &&& self.allocated_tokens <= i64::MAX
        &&& self.unlock_duration <= i64::MAX
        &&& self.lockup_period >= 0
        &&& self.unlock_tge <= 100
    }

    /// The moment the lockup ends, for an account released at `initialized_at`.
    pub open spec fn lockup_end(&self, initialized_at: u64) -> int {
        initialized_at + self.lockup_period
    }

    /// The moment the last installment opens.
    pub open spec fn vesting_end(&self, initialized_at: u64) -> int {
        self.lockup_end(initialized_at) + self.unlock_duration
    }

    /// What round 0 releases: `unlock_tge` percent of the allocation, cut down
    /// to whole base units.
    pub open spec fn initial_unlock(&self) -> int {
        (self.allocated_tokens * self.unlock_tge) / 100
    }

    /// Tests `valid`.
    pub fn is_valid(&self) -> (valid: bool)
        ensures
            valid == self.valid(),
    {
        0 < self.vesting_end_month && self.vesting_end_month <= 0x7fff_ffff_ffff_ffff
            && self.allocated_tokens <= 0x7fff_ffff_ffff_ffff && self.unlock_duration
            <= 0x7fff_ffff_ffff_ffff && self.lockup_period >= 0 && self.unlock_tge <= 100
    }

    /// Tests whether the whole schedule, from an account released at
    /// `initialized_at`, ends at a moment that the calendar can hold.
    pub fn ends_in_time(&self, initialized_at: u64) -> (fits: bool)
        requires
            self.valid(),
        ensures
            fits == representable(self.vesting_end(initialized_at)),
    {
        let end: u128 = (initialized_at as u128) + (self.lockup_period as u128) + (
        self.unlock_duration as u128);
        end <= MAX_TIMESTAMP as u128
    }
}

/// One vesting arrangement.
#[derive(Debug, Clone, PartialEq, Eq, Default)]
pub struct DataAccount {
    /// 0 until the account is released; any other value once it is active.
    pub state: u8,
    /// What was deposited at setup, before scaling by `decimals`.
    pub token_amount: u64,
    /// Who set the account up, and alone may release it.
    pub initializer: Pubkey,
    /// Where the deposit is held.
    pub escrow_wallet: Pubkey,
    /// The token that is vested.
    pub token_mint: Pubkey,
    /// The Unix time of the release, from which every lockup is counted.
    /// It is written once, when the account becomes active.
    pub initialized_at: u64,
    /// The participants, in the order given at setup.
    pub beneficiaries: Vec<Beneficiary>,
    /// The exponent that turns an amount into transfer units.
    pub decimals: u8,
    /// 1 once setup has completed.
    pub is_initialized: u8,
    /// Kept for the stored layout; no rule reads it.
    pub contract_end_month: u8,
}

/// What an account is to the contracts: its fields, with the beneficiaries
/// as a sequence.
pub struct AccountView {
    pub state: u8,
    pub token_amount: u64,
    pub initializer: Pubkey,
    pub escrow_wallet: Pubkey,
    pub token_mint: Pubkey,
    pub initialized_at: u64,
    pub beneficiaries: Seq<Beneficiary>,
    pub decimals: u8,
    pub is_initialized: u8,
    pub contract_end_month: u8,
}

impl View for DataAccount {
    type V = AccountView;

    open spec fn view(&self) -> AccountView {
        AccountView {
            state: self.state,
            token_amount: self.token_amount,
            initializer: self.initializer,
            escrow_wallet: self.escrow_wallet,
            token_mint: self.token_mint,
            initialized_at: self.initialized_at,
            beneficiaries: self.beneficiaries@,
            decimals: self.decimals,
            is_initialized: self.is_initialized,
            contract_end_month: self.contract_end_month,
        }
    }
}

/// Whether every beneficiary has valid parameters.
pub open spec fn all_valid(beneficiaries: Seq<Beneficiary>) -> bool {
    forall|i: int| 0 <= i < beneficiaries.len() ==> (#[trigger] beneficiaries[i]).valid()
}

/// Whether every beneficiary's schedule ends at a moment that the calendar
/// can hold, counted from `initialized_at`.
pub open spec fn schedules_fit(beneficiaries: Seq<Beneficiary>, initialized_at: u64) -> bool {
    forall|i: int|
        0 <= i < beneficiaries.len() ==> representable(
            (#[trigger] beneficiaries[i]).vesting_end(initialized_at),
        )
}

impl AccountView {
    /// Whether the account has been released.
    pub open spec fn is_active(&self) -> bool {
        self.state != 0
    }

    /// The account's invariant: it holds no more beneficiaries than allowed,
    /// each of them is valid, and once the account is active each schedule
    /// ends at a moment that the calendar can hold.
    pub open spec fn wf(&self) -> bool {
        &&& self.beneficiaries.len() <= MAX_BENEFICIARIES
        &&& all_valid(self.beneficiaries)
        &&& self.is_active() ==> schedules_fit(self.beneficiaries, self.initialized_at)
    }
}

impl DataAccount {
    /// Tests the account's invariant.
    pub fn is_well_formed(&self) -> (ok: bool)
        ensures
            ok == self@.wf(),
    {
        if self.beneficiaries.len() > MAX_BENEFICIARIES {
            return false;
        }
        if !all_beneficiaries_valid(&self.beneficiaries) {
            return false;
        }
        self.state == 0 || all_schedules_fit(&self.beneficiaries, self.initialized_at)
    }
}

/// Tests whether every beneficiary has valid parameters.
pub fn all_beneficiaries_valid(beneficiaries: &Vec<Beneficiary>) -> (ok: bool)
    ensures
        ok == all_valid(beneficiaries@),
{
    let mut i: usize = 0;
    while i < beneficiaries.len()
        invariant
            i <= beneficiaries@.len(),
            forall|k: int| 0 <= k < i ==> (#[trigger] beneficiaries@[k]).valid(),
        decreases beneficiaries@.len() - i,
    {
        if !beneficiaries[i].is_valid() {
            return false;
        }
        i = i + 1;
    }
    true
}

/// Tests whether every schedule, counted from `initialized_at`, ends at a
/// moment that the calendar can hold.
pub fn all_schedules_fit(beneficiaries: &Vec<Beneficiary>, initialized_at: u64) -> (ok: bool)
    requires
        all_valid(beneficiaries@),
    ensures
        ok == schedules_fit(beneficiaries@, initialized_at),
{
    let mut i: usize = 0;
    while i < beneficiaries.len()
        invariant
            i <= beneficiaries@.len(),
            all_valid(beneficiaries@),
            forall|k: int|
                0 <= k < i ==> representable(
                    (#[trigger] beneficiaries@[k]).vesting_end(initialized_at),
                ),
        decreases beneficiaries@.len() - i,
    {
        if !beneficiaries[i].ends_in_time(initialized_at) {
            return false;
        }
        i = i + 1;
    }
    true
}

} // verus!
