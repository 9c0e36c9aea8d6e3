//! Arithmetic on token amounts that detects overflow instead of wrapping.

use vstd::arithmetic::power::{lemma_pow_increases, lemma_pow_positive, pow};
use vstd::prelude::*;

verus! {

/// `amount` in transfer units: `amount` times ten to the power `decimals`.
pub open spec fn scaled(amount: int, decimals: u8) -> int {
    amount * pow(10, decimals as nat)
}

/// What `percent` percent of `amount` come to, cut down to whole units.
pub open spec fn percentage(amount: int, percent: int) -> int {
    (amount * percent) / 100
}

/// Scaling an amount that is not negative gives one that is not negative,
/// and no smaller than the amount itself.
pub proof fn lemma_scaled_bounds(amount: int, decimals: u8)
    requires
        amount >= 0,
    ensures
        scaled(amount, decimals) >= amount,
        pow(10, decimals as nat) >= 1,
{
    lemma_pow_positive(10, decimals as nat);
    let unit = pow(10, decimals as nat);
    assert(amount * unit >= amount) by (nonlinear_arith)
        requires
            amount >= 0,
            unit >= 1,
    ;
}

/// One more factor of ten.
proof fn lemma_pow10_step(e: nat)
    ensures
        pow(10, e + 1) == 10 * pow(10, e),
        pow(10, 0) == 1,
{
    reveal(pow);
}

/// Ten to the power `decimals`, or `None` where that exceeds the 64-bit range.
pub fn checked_pow10(decimals: u8) -> (power: Option<u64>)
    ensures
        power == if pow(10, decimals as nat) <= u64::MAX {
            Some(pow(10, decimals as nat) as u64)
        } else {
            None
        },
{
    let mut power: u64 = 1;
    let mut i: u8 = 0;
    proof {
        lemma_pow10_step(0);
    }
    while i < decimals
        invariant
            i <= decimals,
            power == pow(10, i as nat),
        decreases decimals - i,
    {
        proof {
            lemma_pow10_step(i as nat);
        }
        match power.checked_mul(10) {
            Some(next) => {
                power = next;
            },
            None => {
                proof {
                    lemma_pow_increases(10, (i + 1) as nat, decimals as nat);
                }
                return None;
            },
        }
        i = i + 1;
    }
    Some(power)
}

/// Scales an amount to transfer units with a checked multiplication.
///
/// The result is the exact product `amount * 10^decimals` wherever that fits
/// 64 bits, and `None` wherever it does not: no product is ever wrapped or cut.
pub fn scale_amount(amount: u64, decimals: u8) -> (transfer: Option<u64>)
    ensures
        transfer == if scaled(amount as int, decimals) <= u64::MAX {
            Some(scaled(amount as int, decimals) as u64)
        } else {
            None
        },
        transfer matches Some(units) ==> units == scaled(amount as int, decimals),
{
    proof {
        lemma_pow_positive(10, decimals as nat);
        lemma_scaled_bounds(amount as int, decimals);
    }
    if amount == 0 {
        assert(scaled(0, decimals) == 0) by (nonlinear_arith)
            requires
                scaled(0, decimals) == 0 * pow(10, decimals as nat),
        ;
        return Some(0);
    }
    match checked_pow10(decimals) {
        Some(unit) => amount.checked_mul(unit),
        None => {
            assert(scaled(amount as int, decimals) >= pow(10, decimals as nat))
                by (nonlinear_arith)
                requires
                    amount >= 1,
                    pow(10, decimals as nat) > 0,
                    scaled(amount as int, decimals) == amount * pow(10, decimals as nat),
            ;
            None
        },
    }
}

/// Takes `percent` percent of `amount`, cut down to whole units.
pub fn percent_of(amount: u64, percent: u8) -> (part: u64)
    requires
        percent <= 100,
    ensures
        part == percentage(amount as int, percent as int),
        part <= amount,
{
    proof {
        let a = amount as int;
        let p = percent as int;
        assert(0 <= a * p <= a * 100) by (nonlinear_arith)
            requires
                0 <= a,
                0 <= p <= 100,
        ;
        assert((a * p) / 100 <= a);
        assert((a * p) / 100 >= 0);
    }
    let wide: u128 = (amount as u128) * (percent as u128);
    (wide / 100) as u64
}

} // verus!
