//! The unlock schedule: when each round opens and what it is worth.

use crate::clock::{representable, shift_timestamp};
use vstd::arithmetic::div_mod::{
    lemma_div_by_multiple, lemma_div_is_ordered, lemma_div_pos_is_pos, lemma_fundamental_div_mod,
    lemma_fundamental_div_mod_converse, lemma_mod_bound,
};
use vstd::arithmetic::mul::{lemma_mul_inequality, lemma_mul_is_commutative, lemma_mul_nonnegative};
use vstd::prelude::*;

verus! {

/// One round of a schedule.
#[derive(Debug, Clone, Copy, PartialEq, Eq)]
pub struct ScheduleEntry {
    /// Which round this is. Round 0 opens the moment the lockup ends; the
    /// rounds after it are the installments.
    pub round_index: u64,
    /// The Unix time from which the round is payable.
    pub unlock_time: i64,
    /// What the round is worth, in base units.
    pub entitlement: u64,
}

/// Seconds from the start of the schedule to the opening of `round`: the
/// share of `unlock_duration` that `round` rounds out of `vesting_end_month`
/// take, cut down to whole seconds.
pub open spec fn unlock_offset(unlock_duration: int, vesting_end_month: int, round: int) -> int {
    (unlock_duration * round) / vesting_end_month
}

/// The Unix time at which `round` opens.
pub open spec fn unlock_time(
    start_time: int,
    vesting_end_month: int,
    unlock_duration: int,
    round: int,
) -> int {
    start_time + unlock_offset(unlock_duration, vesting_end_month, round)
}

/// What every round is worth: an equal share of the allocation, cut down to
/// whole base units. The shares of all installments together may therefore
/// fall short of the allocation, by less than one unit for each round.
pub open spec fn installment(allocated_tokens: int, vesting_end_month: int) -> int {
    allocated_tokens / vesting_end_month
}

/// How many rounds a schedule lists: those from `confirm_round` up to and
/// including round `vesting_end_month`.
pub open spec fn schedule_len(vesting_end_month: int, confirm_round: int) -> nat {
    if confirm_round <= vesting_end_month {
        (vesting_end_month - confirm_round + 1) as nat
    } else {
        0
    }
}

/// The entry that a schedule holds for `round`.
pub open spec fn schedule_entry(
    start_time: int,
    vesting_end_month: int,
    unlock_duration: int,
    allocated_tokens: int,
    round: int,
) -> ScheduleEntry {
    ScheduleEntry {
        round_index: round as u64,
        unlock_time: unlock_time(start_time, vesting_end_month, unlock_duration, round) as i64,
        entitlement: installment(allocated_tokens, vesting_end_month) as u64,
    }
}

/// The first `len` entries of the schedule that starts at round
/// `confirm_round`, in rising order of round.
pub open spec fn schedule_prefix(
    start_time: int,
    vesting_end_month: int,
    unlock_duration: int,
    allocated_tokens: int,
    confirm_round: int,
    len: nat,
) -> Seq<ScheduleEntry> {
    Seq::new(
        len,
        |k: int|
            schedule_entry(
                start_time,
                vesting_end_month,
                unlock_duration,
                allocated_tokens,
                confirm_round + k,
            ),
    )
}

/// The schedule as a sequence: one entry for each round from `confirm_round`
/// to `vesting_end_month`, in rising order of round.
pub open spec fn schedule(
    start_time: int,
    vesting_end_month: int,
    unlock_duration: int,
    allocated_tokens: int,
    confirm_round: int,
) -> Seq<ScheduleEntry> {
    schedule_prefix(
        start_time,
        vesting_end_month,
        unlock_duration,
        allocated_tokens,
        confirm_round,
        schedule_len(vesting_end_month, confirm_round),
    )
}

/// The offset of a round lies between nothing and the whole duration.
pub proof fn lemma_unlock_offset_bounds(unlock_duration: int, vesting_end_month: int, round: int)
    requires
        vesting_end_month > 0,
        unlock_duration >= 0,
        0 <= round <= vesting_end_month,
    ensures
        0 <= unlock_offset(unlock_duration, vesting_end_month, round) <= unlock_duration,
{
    lemma_mul_nonnegative(unlock_duration, round);
    lemma_div_pos_is_pos(unlock_duration * round, vesting_end_month);
    lemma_mul_inequality(round, vesting_end_month, unlock_duration);
    lemma_mul_is_commutative(unlock_duration, round);
    lemma_mul_is_commutative(unlock_duration, vesting_end_month);
    lemma_div_is_ordered(
        unlock_duration * round,
        unlock_duration * vesting_end_month,
        vesting_end_month,
    );
    lemma_div_by_multiple(unlock_duration, vesting_end_month);
}

/// A later round never opens before an earlier one: cutting the offsets down
/// to whole seconds may make two rounds open together, but never swaps them.
pub proof fn lemma_unlock_times_nondecreasing(
    start_time: int,
    vesting_end_month: int,
    unlock_duration: int,
    earlier: int,
    later: int,
)
    requires
        vesting_end_month > 0,
        unlock_duration >= 0,
        earlier <= later,
    ensures
        unlock_time(start_time, vesting_end_month, unlock_duration, earlier) <= unlock_time(
            start_time,
            vesting_end_month,
            unlock_duration,
            later,
        ),
{
    lemma_mul_inequality(earlier, later, unlock_duration);
    lemma_mul_is_commutative(unlock_duration, earlier);
    lemma_mul_is_commutative(unlock_duration, later);
    lemma_div_is_ordered(unlock_duration * earlier, unlock_duration * later, vesting_end_month);
}

/// Rounds are spaced almost evenly: from one round to the next the unlock
/// time moves on by the whole seconds of an even share of the duration, or by
/// one second more.
pub proof fn lemma_rounds_are_spaced_within_a_second(
    start_time: int,
    vesting_end_month: int,
    unlock_duration: int,
    round: int,
)
    requires
        vesting_end_month > 0,
        unlock_duration >= 0,
    ensures
        ({
            let step = unlock_time(start_time, vesting_end_month, unlock_duration, round + 1)
                - unlock_time(start_time, vesting_end_month, unlock_duration, round);
            unlock_duration / vesting_end_month <= step <= unlock_duration / vesting_end_month + 1
        }),
{
    let n = vesting_end_month;
    let here = unlock_duration * round;
    let next = unlock_duration * (round + 1);
    assert(next == here + unlock_duration) by (nonlinear_arith)
        requires
            here == unlock_duration * round,
            next == unlock_duration * (round + 1),
    ;
    lemma_fundamental_div_mod(here, n);
    lemma_fundamental_div_mod(unlock_duration, n);
    lemma_mod_bound(here, n);
    lemma_mod_bound(unlock_duration, n);
    let whole = here / n + unlock_duration / n;
    let rest = here % n + unlock_duration % n;
    assert(next == whole * n + rest) by (nonlinear_arith)
        requires
            next == here + unlock_duration,
            here == n * (here / n) + here % n,
            unlock_duration == n * (unlock_duration / n) + unlock_duration % n,
            whole == here / n + unlock_duration / n,
            rest == here % n + unlock_duration % n,
    ;
    if rest < n {
        lemma_fundamental_div_mod_converse(next, n, whole, rest);
    } else {
        assert(next == (whole + 1) * n + (rest - n)) by (nonlinear_arith)
            requires
                next == whole * n + rest,
        ;
        lemma_fundamental_div_mod_converse(next, n, whole + 1, rest - n);
    }
}

/// Computes the offset of a round in whole seconds, through a product that
/// cannot overflow.
pub fn round_offset(unlock_duration: u64, vesting_end_month: u64, round: u64) -> (offset: u64)
    requires
        vesting_end_month > 0,
        round <= vesting_end_month,
    ensures
        offset == unlock_offset(unlock_duration as int, vesting_end_month as int, round as int),
        offset <= unlock_duration,
{
    proof {
        lemma_unlock_offset_bounds(unlock_duration as int, vesting_end_month as int, round as int);
        lemma_mul_nonnegative(unlock_duration as int, round as int);
        assert(unlock_duration * round <= 0xffff_ffff_ffff_ffff * 0xffff_ffff_ffff_ffff)
            by (nonlinear_arith)
            requires
                0 <= unlock_duration <= 0xffff_ffff_ffff_ffff,
                0 <= round <= 0xffff_ffff_ffff_ffff,
        ;
    }
    let wide: u128 = (unlock_duration as u128) * (round as u128);
    let offset: u128 = wide / (vesting_end_month as u128);
    offset as u64
}

/// Lists the rounds of a vesting schedule that starts at `start_time`.
///
/// The schedule has one entry for each round from `confirm_round` to
/// `vesting_end_month`, both included, in rising order; it is empty where
/// `confirm_round` lies beyond the last round. Round `i` opens
/// `unlock_duration * i / vesting_end_month` whole seconds after `start_time`,
/// and every round is worth `allocated_tokens / vesting_end_month` whole base
/// units. Unlock times never decrease along the schedule.
///
/// The schedule must have at least one round, the allocation and the duration
/// must not be negative, and its first and last moment must be seconds that
/// the calendar can hold.
pub fn calculate_schedule(
    start_time: i64,
    vesting_end_month: i64,
    unlock_duration: i64,
    allocated_tokens: i64,
    confirm_round: u8,
) -> (entries: Vec<ScheduleEntry>)
    requires
        vesting_end_month > 0,
        allocated_tokens >= 0,
        unlock_duration >= 0,
        representable(start_time as int),
        representable(start_time + unlock_duration),
    ensures
        entries@ == schedule(
            start_time as int,
            vesting_end_month as int,
            unlock_duration as int,
            allocated_tokens as int,
            confirm_round as int,
        ),
        entries@.len() == schedule_len(vesting_end_month as int, confirm_round as int),
        forall|k: int|
            0 <= k < entries@.len() ==> {
                &&& (#[trigger] entries@[k]).round_index == confirm_round + k
                &&& entries@[k].unlock_time == unlock_time(
                    start_time as int,
                    vesting_end_month as int,
                    unlock_duration as int,
                    confirm_round + k,
                )
                &&& entries@[k].entitlement == installment(
                    allocated_tokens as int,
                    vesting_end_month as int,
                )
            },
        forall|i: int, j: int|
            0 <= i <= j < entries@.len() ==> (#[trigger] entries@[i]).unlock_time <= (
            #[trigger] entries@[j]).unlock_time,
{
    let rounds: u64 = vesting_end_month as u64;
    let duration: u64 = unlock_duration as u64;
    let share: u64 = (allocated_tokens as u64) / rounds;
    let first: u64 = confirm_round as u64;
    let mut entries: Vec<ScheduleEntry> = Vec::new();
    let mut round: u64 = first;
    while round <= rounds
        invariant
            vesting_end_month > 0,
            unlock_duration >= 0,
            representable(start_time as int),
            representable(start_time + unlock_duration),
            rounds == vesting_end_month,
            duration == unlock_duration,
            first == confirm_round,
            share == installment(allocated_tokens as int, vesting_end_month as int),
            first <= round,
            round <= rounds + 1 || round == first,
            entries@.len() == round - first,
            forall|k: int|
                0 <= k < entries@.len() ==> #[trigger] entries@[k] == schedule_entry(
                    start_time as int,
                    vesting_end_month as int,
                    unlock_duration as int,
                    allocated_tokens as int,
                    confirm_round + k,
                ),
            forall|k: int|
                0 <= k < entries@.len() ==> (#[trigger] entries@[k]).unlock_time == unlock_time(
                    start_time as int,
                    vesting_end_month as int,
                    unlock_duration as int,
                    confirm_round + k,
                ),
        decreases rounds + 1 - round,
    {
        let offset: u64 = round_offset(duration, rounds, round);
        let opened = shift_timestamp(start_time, offset as i64);
        let unlock: i64 = opened.unwrap();
        entries.push(ScheduleEntry { round_index: round, unlock_time: unlock, entitlement: share });
        round = round + 1;
    }
    proof {
        assert(entries@ =~= schedule(
            start_time as int,
            vesting_end_month as int,
            unlock_duration as int,
            allocated_tokens as int,
            confirm_round as int,
        ));
        assert forall|i: int, j: int| 0 <= i <= j < entries@.len() implies (
        #[trigger] entries@[i]).unlock_time <= (#[trigger] entries@[j]).unlock_time by {
            lemma_unlock_times_nondecreasing(
                start_time as int,
                vesting_end_month as int,
                unlock_duration as int,
                confirm_round + i,
                confirm_round + j,
            );
        }
    }
    entries
}

} // verus!
