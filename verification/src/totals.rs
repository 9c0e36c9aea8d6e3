//! What a schedule pays at a given moment.

use crate::calculate::{
    installment, lemma_unlock_offset_bounds, schedule_prefix, unlock_time, ScheduleEntry,
};
use vstd::arithmetic::div_mod::{lemma_div_pos_is_pos, lemma_remainder_lower};
use vstd::prelude::*;

verus! {

/// What one entry adds to a claim at `current_time`: nothing while it has not
/// opened, and nothing where it lies before `confirm_round`; otherwise
/// `initial_unlock` for round 0 and the entry's own entitlement for every
/// later round.
pub open spec fn payable(
    entry: ScheduleEntry,
    current_time: i64,
    confirm_round: u8,
    initial_unlock: u64,
) -> int {
    if entry.unlock_time <= current_time && entry.round_index >= confirm_round {
        if entry.round_index == 0 {
            initial_unlock as int
        } else {
            entry.entitlement as int
        }
    } else {
        0
    }
}

/// What the entries of a schedule add up to at `current_time`.
pub open spec fn total_claimable(
    entries: Seq<ScheduleEntry>,
    current_time: i64,
    confirm_round: u8,
    initial_unlock: u64,
) -> int
    decreases entries.len(),
{
    if entries.len() == 0 {
        0
    } else {
        total_claimable(entries.drop_last(), current_time, confirm_round, initial_unlock)
            + payable(entries.last(), current_time, confirm_round, initial_unlock)
    }
}

/// A total is never negative, and no larger than as many maximal amounts as
/// there are entries.
pub proof fn lemma_total_claimable_range(
    entries: Seq<ScheduleEntry>,
    current_time: i64,
    confirm_round: u8,
    initial_unlock: u64,
)
    ensures
        0 <= total_claimable(entries, current_time, confirm_round, initial_unlock)
            <= entries.len() * u64::MAX,
    decreases entries.len(),
{
    if entries.len() > 0 {
        lemma_total_claimable_range(
            entries.drop_last(),
            current_time,
            confirm_round,
            initial_unlock,
        );
    }
}

/// Adds up what a schedule pays at `current_time`: for every entry that has
/// opened and does not lie before `confirm_round`, the initial unlock where
/// it is round 0 and its entitlement otherwise.
pub fn sum_claimable(
    entries: &Vec<ScheduleEntry>,
    current_time: i64,
    confirm_round: u8,
    initial_unlock: u64,
) -> (total: u128)
    ensures
        total == total_claimable(entries@, current_time, confirm_round, initial_unlock),
{
    let mut total: u128 = 0;
    let mut i: usize = 0;
    while i < entries.len()
        invariant
            i <= entries@.len(),
            total == total_claimable(
                entries@.take(i as int),
                current_time,
                confirm_round,
                initial_unlock,
            ),
        decreases entries@.len() - i,
    {
        let entry = entries[i];
        proof {
            let next = entries@.take(i + 1);
            assert(next.drop_last() =~= entries@.take(i as int));
            assert(next.last() == entry);
            lemma_total_claimable_range(next, current_time, confirm_round, initial_unlock);
        }
        if entry.unlock_time <= current_time && entry.round_index >= confirm_round as u64 {
            if entry.round_index == 0 {
                total = total + initial_unlock as u128;
            } else {
                total = total + entry.entitlement as u128;
            }
        }
        i = i + 1;
    }
    assert(entries@.take(i as int) =~= entries@);
    total
}

/// What a schedule pays never shrinks as time goes on: an entry that has
/// opened stays open.
pub proof fn lemma_total_claimable_grows_with_time(
    entries: Seq<ScheduleEntry>,
    earlier: i64,
    later: i64,
    confirm_round: u8,
    initial_unlock: u64,
)
    requires
        earlier <= later,
    ensures
        total_claimable(entries, earlier, confirm_round, initial_unlock) <= total_claimable(
            entries,
            later,
            confirm_round,
            initial_unlock,
        ),
    decreases entries.len(),
{
    if entries.len() > 0 {
        lemma_total_claimable_grows_with_time(
            entries.drop_last(),
            earlier,
            later,
            confirm_round,
            initial_unlock,
        );
    }
}

/// A round that lies before the confirmed round never counts: whatever the
/// time, a total is the total of the entries at or after `confirm_round`
/// alone.
pub proof fn lemma_unconfirmed_rounds_never_count(
    entries: Seq<ScheduleEntry>,
    current_time: i64,
    confirm_round: u8,
    initial_unlock: u64,
)
    ensures
        forall|k: int|
            0 <= k < entries.len() && (#[trigger] entries[k]).round_index < confirm_round
                ==> payable(entries[k], current_time, confirm_round, initial_unlock) == 0,
        total_claimable(entries, current_time, confirm_round, initial_unlock) == total_claimable(
            entries.filter(|entry: ScheduleEntry| entry.round_index >= confirm_round),
            current_time,
            confirm_round,
            initial_unlock,
        ),
    decreases entries.len(),
{
    reveal(Seq::filter);
    if entries.len() > 0 {
        let confirmed = |entry: ScheduleEntry| entry.round_index >= confirm_round;
        let front = entries.drop_last();
        lemma_unconfirmed_rounds_never_count(front, current_time, confirm_round, initial_unlock);
        if confirmed(entries.last()) {
            let kept = front.filter(confirmed).push(entries.last());
            assert(kept.drop_last() =~= front.filter(confirmed));
            assert(kept.last() == entries.last());
        }
    }
}

/// How many of the first `len` entries of a schedule are installments, that
/// is, rounds other than round 0.
pub open spec fn installments_among(confirm_round: int, len: nat) -> int {
    if confirm_round == 0 && len > 0 {
        len - 1
    } else {
        len as int
    }
}

/// What round 0 can add to the first `len` entries of a schedule: the
/// initial unlock where round 0 is among them, and nothing otherwise.
pub open spec fn initial_part(confirm_round: int, len: nat, initial_unlock: int) -> int {
    if confirm_round == 0 && len > 0 {
        initial_unlock
    } else {
        0
    }
}

/// An installment is never negative and never more than the allocation, and
/// all installments together fall short of the allocation by its remainder.
pub proof fn lemma_installment_bounds(allocated_tokens: int, vesting_end_month: int)
    requires
        vesting_end_month > 0,
        allocated_tokens >= 0,
    ensures
        0 <= installment(allocated_tokens, vesting_end_month) <= allocated_tokens,
        installment(allocated_tokens, vesting_end_month) * vesting_end_month == allocated_tokens
            - allocated_tokens % vesting_end_month,
        0 <= allocated_tokens % vesting_end_month < vesting_end_month,
{
    let share = installment(allocated_tokens, vesting_end_month);
    lemma_div_pos_is_pos(allocated_tokens, vesting_end_month);
    lemma_remainder_lower(allocated_tokens, vesting_end_month);
    vstd::arithmetic::div_mod::lemma_fundamental_div_mod(allocated_tokens, vesting_end_month);
    vstd::arithmetic::div_mod::lemma_mod_bound(allocated_tokens, vesting_end_month);
    assert(share * vesting_end_month == vesting_end_month * share) by (nonlinear_arith);
    assert(share <= allocated_tokens) by (nonlinear_arith)
        requires
            share * vesting_end_month <= allocated_tokens,
            vesting_end_month >= 1,
            share >= 0,
    ;
}

/// The first `len` entries of a schedule add up to no more than the initial
/// unlock, where round 0 is among them, and one installment for each of the
/// others.
pub proof fn lemma_prefix_total_bound(
    start_time: int,
    vesting_end_month: int,
    unlock_duration: int,
    allocated_tokens: int,
    confirm_round: u8,
    len: nat,
    current_time: i64,
    initial_unlock: u64,
)
    requires
        0 < vesting_end_month <= i64::MAX,
        0 <= allocated_tokens <= i64::MAX,
        len == 0 || confirm_round + len <= vesting_end_month + 1,
    ensures
        0 <= total_claimable(
            schedule_prefix(
                start_time,
                vesting_end_month,
                unlock_duration,
                allocated_tokens,
                confirm_round as int,
                len,
            ),
            current_time,
            confirm_round,
            initial_unlock,
        ) <= initial_part(confirm_round as int, len, initial_unlock as int) + installment(
            allocated_tokens,
            vesting_end_month,
        ) * installments_among(confirm_round as int, len),
    decreases len,
{
    let share = installment(allocated_tokens, vesting_end_month);
    lemma_installment_bounds(allocated_tokens, vesting_end_month);
    if len > 0 {
        let entries = schedule_prefix(
            start_time,
            vesting_end_month,
            unlock_duration,
            allocated_tokens,
            confirm_round as int,
            len,
        );
        let shorter = (len - 1) as nat;
        lemma_prefix_total_bound(
            start_time,
            vesting_end_month,
            unlock_duration,
            allocated_tokens,
            confirm_round,
            shorter,
            current_time,
            initial_unlock,
        );
        assert(entries.drop_last() =~= schedule_prefix(
            start_time,
            vesting_end_month,
            unlock_duration,
            allocated_tokens,
            confirm_round as int,
            shorter,
        ));
        let last = entries.last();
        assert(last.round_index == confirm_round + len - 1);
        assert(last.entitlement == share);
        let before = installments_among(confirm_round as int, shorter);
        let after = installments_among(confirm_round as int, len);
        assert(share * after == share * before + share * (after - before)) by (nonlinear_arith);
        assert(share * 1 == share) by (nonlinear_arith);
        assert(share * 0 == 0) by (nonlinear_arith);
    } else {
        assert(share * 0 == 0) by (nonlinear_arith);
    }
}

/// Once the whole duration has passed, the first `len` entries of a schedule
/// add up to exactly the initial unlock, where round 0 is among them, and one
/// installment for each of the others.
pub proof fn lemma_prefix_total_when_open(
    start_time: int,
    vesting_end_month: int,
    unlock_duration: int,
    allocated_tokens: int,
    confirm_round: u8,
    len: nat,
    current_time: i64,
    initial_unlock: u64,
)
    requires
        0 < vesting_end_month <= i64::MAX,
        0 <= allocated_tokens <= i64::MAX,
        0 <= unlock_duration,
        i64::MIN <= start_time,
        start_time + unlock_duration <= current_time,
        len == 0 || confirm_round + len <= vesting_end_month + 1,
    ensures
        total_claimable(
            schedule_prefix(
                start_time,
                vesting_end_month,
                unlock_duration,
                allocated_tokens,
                confirm_round as int,
                len,
            ),
            current_time,
            confirm_round,
            initial_unlock,
        ) == initial_part(confirm_round as int, len, initial_unlock as int) + installment(
            allocated_tokens,
            vesting_end_month,
        ) * installments_among(confirm_round as int, len),
    decreases len,
{
    let share = installment(allocated_tokens, vesting_end_month);
    lemma_installment_bounds(allocated_tokens, vesting_end_month);
    if len > 0 {
        let entries = schedule_prefix(
            start_time,
            vesting_end_month,
            unlock_duration,
            allocated_tokens,
            confirm_round as int,
            len,
        );
        let shorter = (len - 1) as nat;
        lemma_prefix_total_when_open(
            start_time,
            vesting_end_month,
            unlock_duration,
            allocated_tokens,
            confirm_round,
            shorter,
            current_time,
            initial_unlock,
        );
        assert(entries.drop_last() =~= schedule_prefix(
            start_time,
            vesting_end_month,
            unlock_duration,
            allocated_tokens,
            confirm_round as int,
            shorter,
        ));
        let last = entries.last();
        let round = confirm_round + len - 1;
        lemma_unlock_offset_bounds(unlock_duration, vesting_end_month, round);
        assert(last.round_index == round);
        assert(last.entitlement == share);
        assert(last.unlock_time == unlock_time(
            start_time,
            vesting_end_month,
            unlock_duration,
            round,
        ));
        assert(last.unlock_time <= current_time);
        let before = installments_among(confirm_round as int, shorter);
        let after = installments_among(confirm_round as int, len);
        assert(share * after == share * before + share * (after - before)) by (nonlinear_arith);
        assert(share * 1 == share) by (nonlinear_arith);
        assert(share * 0 == 0) by (nonlinear_arith);
    } else {
        assert(share * 0 == 0) by (nonlinear_arith);
    }
}

} // verus!
