//! The reward calculator.
//!
//! Precision policy: the reward is computed exactly. The product
//! `amount * rate * elapsed` is formed in 128 bits and divided once by
//! `100 * SECONDS_PER_YEAR`; the quotient is rounded half up. No intermediate
//! value is rounded, so the result differs from the real-valued formula by at
//! most half a unit, and every implementation of this definition agrees on
//! every input. A reward that does not fit in 64 bits is reported as
//! `u64::MAX`.

use vstd::arithmetic::div_mod::lemma_div_is_ordered;
use vstd::arithmetic::div_mod::lemma_fundamental_div_mod;
use vstd::arithmetic::div_mod::lemma_fundamental_div_mod_converse;
use vstd::arithmetic::mul::lemma_mul_inequality;
use vstd::prelude::*;

verus! {

/// Seconds in the accrual year: 365 days, with no leap adjustment.
pub const SECONDS_PER_YEAR: u64 = 31_536_000;

/// Divisor of the reward fraction: `100 * SECONDS_PER_YEAR`.
pub const RATE_DENOMINATOR: u128 = 3_153_600_000;

/// `numerator / denominator`, rounded to the nearest integer, a tie going up.
pub open spec fn round_half_up(numerator: nat, denominator: nat) -> nat
    recommends
        denominator > 0,
{
    (2 * numerator + denominator) / (2 * denominator)
}

/// Seconds from `last_update` to `now`, or zero where the clock went back.
pub open spec fn elapsed(last_update: i64, now: i64) -> nat {
    if now < last_update {
        0
    } else {
        (now - last_update) as nat
    }
}

/// The reward before it is fitted into 64 bits:
/// `amount * apy / 100 * elapsed / SECONDS_PER_YEAR`, rounded half up.
pub open spec fn exact_reward(amount: u64, last_update: i64, now: i64, apy: u8) -> nat {
    round_half_up(
        (amount as nat) * (apy as nat) * elapsed(last_update, now),
        RATE_DENOMINATOR as nat,
    )
}

/// The reward accrued on `amount` from `last_update` to `now` at `apy` percent a
/// year: `exact_reward`, held at `u64::MAX` where it would exceed it.
pub open spec fn reward(amount: u64, last_update: i64, now: i64, apy: u8) -> u64 {
    let exact = exact_reward(amount, last_update, now, apy);
    if exact > u64::MAX {
        u64::MAX
    } else {
        exact as u64
    }
}

/// Rounding half up is the quotient, plus one where twice the remainder reaches
/// the denominator.
pub proof fn lemma_round_half_up_by_remainder(numerator: nat, denominator: nat)
    requires
        denominator > 0,
    ensures
        round_half_up(numerator, denominator) == numerator / denominator + (if 2 * (numerator
            % denominator) >= denominator {
            1nat
        } else {
            0nat
        }),
{
    let n = numerator as int;
    let d = denominator as int;
    let q = n / d;
    let r = n % d;
    lemma_fundamental_div_mod(n, d);
    assert(n == d * q + r);
    assert(0 <= r < d);
    assert(q >= 0) by (nonlinear_arith)
        requires
            n >= 0,
            d > 0,
            q == n / d,
    ;
    if 2 * r >= d {
        assert(2 * n + d == (q + 1) * (2 * d) + (2 * r - d)) by (nonlinear_arith)
            requires
                n == d * q + r,
        ;
        lemma_fundamental_div_mod_converse(2 * n + d, 2 * d, q + 1, 2 * r - d);
    } else {
        assert(2 * n + d == q * (2 * d) + (2 * r + d)) by (nonlinear_arith)
            requires
                n == d * q + r,
        ;
        lemma_fundamental_div_mod_converse(2 * n + d, 2 * d, q, 2 * r + d);
    }
}

/// Rounding half up lands within half a unit of the fraction: the result times
/// the denominator differs from the numerator by at most half the denominator.
pub proof fn lemma_round_half_up_within_half(numerator: nat, denominator: nat)
    requires
        denominator > 0,
    ensures
        2 * numerator - denominator < 2 * denominator * round_half_up(numerator, denominator)
            <= 2 * numerator + denominator,
{
    let x = (2 * numerator + denominator) as int;
    let d = (2 * denominator) as int;
    lemma_fundamental_div_mod(x, d);
    assert(0 <= x % d < d);
}

/// Rounding half up never decreases when the numerator grows.
pub proof fn lemma_round_half_up_monotonic(smaller: nat, larger: nat, denominator: nat)
    requires
        smaller <= larger,
        denominator > 0,
    ensures
        round_half_up(smaller, denominator) <= round_half_up(larger, denominator),
{
    lemma_div_is_ordered(
        (2 * smaller + denominator) as int,
        (2 * larger + denominator) as int,
        (2 * denominator) as int,
    );
}

/// The exact reward is within half a unit of the real-valued formula: with
/// `n = amount * apy * elapsed` and `d = 100 * SECONDS_PER_YEAR`, it lies in
/// the interval from `n / d - 1/2` (excluded) to `n / d + 1/2`.
pub proof fn lemma_exact_reward_within_half(amount: u64, last_update: i64, now: i64, apy: u8)
    ensures
        ({
            let n = (amount as nat) * (apy as nat) * elapsed(last_update, now);
            let d = RATE_DENOMINATOR as nat;
            2 * n - d < 2 * d * exact_reward(amount, last_update, now, apy) <= 2 * n + d
        }),
{
    lemma_round_half_up_within_half(
        (amount as nat) * (apy as nat) * elapsed(last_update, now),
        RATE_DENOMINATOR as nat,
    );
}

/// No reward accrues over an empty or a negative interval, on nothing, or at a
/// rate of zero.
pub proof fn lemma_reward_zero(amount: u64, last_update: i64, now: i64, apy: u8)
    requires
        now <= last_update || amount == 0 || apy == 0,
    ensures
        reward(amount, last_update, now, apy) == 0,
{
    let product = (amount as nat) * (apy as nat) * elapsed(last_update, now);
    assert(product == 0) by (nonlinear_arith)
        requires
            product == (amount as nat) * (apy as nat) * elapsed(last_update, now),
            elapsed(last_update, now) == 0 || amount == 0 || apy == 0,
    ;
    assert(RATE_DENOMINATOR == 3_153_600_000);
    assert((2 * 0nat + 3_153_600_000nat) / (2 * 3_153_600_000nat) == 0) by (nonlinear_arith);
}

/// The reward never decreases as the clock advances: for one principal, one
/// start and one rate, a later `now` earns at least as much.
pub proof fn lemma_reward_monotonic_in_time(
    amount: u64,
    last_update: i64,
    earlier: i64,
    later: i64,
    apy: u8,
)
    requires
        earlier <= later,
    ensures
        reward(amount, last_update, earlier, apy) <= reward(amount, last_update, later, apy),
{
    let weight = (amount as nat) * (apy as nat);
    let before = elapsed(last_update, earlier);
    let after = elapsed(last_update, later);
    assert(before <= after);
    lemma_mul_inequality(before as int, after as int, weight as int);
    assert(weight * before == before * weight) by (nonlinear_arith);
    assert(weight * after == after * weight) by (nonlinear_arith);
    lemma_round_half_up_monotonic(weight * before, weight * after, RATE_DENOMINATOR as nat);
}

/// The reward accrued on `amount` between `last_update` and `current_time` at
/// `apy` percent a year.
///
/// A clock that went back earns nothing and is no error. The result is exact
/// (see the module notes) and `u64::MAX` where the exact value is larger.
pub fn calculate_rewards(
    amount: u64,
    last_update: i64,
    current_time: i64,
    apy: u8,
) -> (rewards: u64)
    ensures
        rewards == reward(amount, last_update, current_time, apy),
        current_time < last_update ==> rewards == 0,
{
    if current_time < last_update {
        proof {
            lemma_reward_zero(amount, last_update, current_time, apy);
        }
        return 0;
    }
    let duration: u128 = (current_time as i128 - last_update as i128) as u128;
    assert(amount as nat * apy as nat <= 0xffff_ffff_ffff_ffff * 0xff) by (nonlinear_arith);
    let weight: u128 = amount as u128 * apy as u128;
    let ghost product: nat = (amount as nat) * (apy as nat) * elapsed(last_update, current_time);
    assert(product == weight * duration);
    match weight.checked_mul(duration) {
        None => {
            proof {
                let least: nat = (u128::MAX + 1) as nat;
                lemma_round_half_up_monotonic(least, product, RATE_DENOMINATOR as nat);
                assert(RATE_DENOMINATOR == 3_153_600_000);
                assert((2 * 0x1_0000_0000_0000_0000_0000_0000_0000_0000nat + 3_153_600_000nat)
                    / (2 * 3_153_600_000nat) > 0xffff_ffff_ffff_ffff) by (nonlinear_arith);
            }
            u64::MAX
        },
        Some(numerator) => {
            let quotient: u128 = numerator / RATE_DENOMINATOR;
            let remainder: u128 = numerator % RATE_DENOMINATOR;
            proof {
                lemma_round_half_up_by_remainder(numerator as nat, RATE_DENOMINATOR as nat);
            }
            let rounded: u128 = if remainder >= RATE_DENOMINATOR - remainder {
                quotient + 1
            } else {
                quotient
            };
            if rounded > u64::MAX as u128 {
                u64::MAX
            } else {
                rounded as u64
            }
        },
    }
}

} // verus!
