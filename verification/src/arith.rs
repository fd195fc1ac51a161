//! Overflow-checked pool and percentage arithmetic.
//!
//! All pools are split in basis points: a percentage is an integer in
//! `0..=10000`, and `pct_amount` is the floor of `pool * pct / 10000`. The
//! lemmas here are what the payout engine leans on: a slice of a pool is
//! never negative, never more than the pool when the percentage is at most
//! 10000, and slicing by two percentages separately never yields more than
//! slicing by their sum.

use vstd::prelude::*;

use crate::errors::ErrorCode;

verus! {

/// Floor value of `pct` basis points of `pool`.
pub open spec fn pct_amount(pool: int, pct: int) -> int {
    pool * pct / 10000
}

/// A basis-point slice of a nonnegative pool is nonnegative.
pub proof fn lemma_pct_amount_nonneg(pool: int, pct: int)
    requires
        pool >= 0,
        pct >= 0,
    ensures
        pct_amount(pool, pct) >= 0,
{
    assert(pool * pct / 10000 >= 0) by (nonlinear_arith)
        requires
            pool >= 0,
            pct >= 0,
    ;
}

/// A slice of at most 10000 basis points never exceeds the pool.
pub proof fn lemma_pct_amount_le_pool(pool: int, pct: int)
    requires
        pool >= 0,
        0 <= pct <= 10000,
    ensures
        pct_amount(pool, pct) <= pool,
{
    assert(pool * pct / 10000 <= pool) by (nonlinear_arith)
        requires
            pool >= 0,
            0 <= pct <= 10000,
    ;
}

/// Slicing by a larger percentage never yields less.
pub proof fn lemma_pct_amount_monotone(pool: int, a: int, b: int)
    requires
        pool >= 0,
        0 <= a <= b,
    ensures
        pct_amount(pool, a) <= pct_amount(pool, b),
{
    assert(pool * a / 10000 <= pool * b / 10000) by (nonlinear_arith)
        requires
            pool >= 0,
            0 <= a <= b,
    ;
}

/// The whole pool comes back when the slice is exactly 10000 basis points.
pub proof fn lemma_pct_amount_full(pool: int)
    requires
        pool >= 0,
    ensures
        pct_amount(pool, 10000) == pool,
{
    assert(pool * 10000 / 10000 == pool) by (nonlinear_arith);
}

/// Two separate slices of one pool never yield more than the slice by the
/// summed percentage: floor division loses value, it never creates it.
pub proof fn lemma_pct_amount_subadditive(pool: int, a: int, b: int)
    requires
        pool >= 0,
        a >= 0,
        b >= 0,
    ensures
        pct_amount(pool, a) + pct_amount(pool, b) <= pct_amount(pool, a + b),
{
    let x = pool * a;
    let y = pool * b;
    assert(x >= 0 && y >= 0 && pool * (a + b) == x + y) by (nonlinear_arith)
        requires
            pool >= 0,
            a >= 0,
            b >= 0,
            x == pool * a,
            y == pool * b,
    ;
    assert(x / 10000 + y / 10000 <= (x + y) / 10000) by (nonlinear_arith)
        requires
            x >= 0,
            y >= 0,
    ;
}

/// A pool of at most 255 64-bit entry fees leaves room for basis-point
/// scaling in 128 bits.
pub proof fn lemma_total_times_pct_fits(players: int, fee: int, pct: int)
    requires
        0 <= players <= 255,
        0 <= fee <= u64::MAX,
        0 <= pct <= 10000,
    ensures
        0 <= players * fee,
        players * fee * pct <= u128::MAX,
        players * fee * 10000 <= u128::MAX,
{
    assert(0 <= players * fee <= 255 * 0xffff_ffff_ffff_ffff) by (nonlinear_arith)
        requires
            0 <= players <= 255,
            0 <= fee <= u64::MAX,
    ;
    assert(players * fee * pct <= 255 * 0xffff_ffff_ffff_ffff * 10000) by (nonlinear_arith)
        requires
            0 <= players * fee <= 255 * 0xffff_ffff_ffff_ffff,
            0 <= pct <= 10000,
    ;
    assert(players * fee * 10000 <= 255 * 0xffff_ffff_ffff_ffff * 10000) by (nonlinear_arith)
        requires
            0 <= players * fee <= 255 * 0xffff_ffff_ffff_ffff,
    ;
}

/// Total of the entry fees paid in, as the unbounded model value.
pub open spec fn total_buy_ins(current_players: int, buy_in_amount: int) -> int {
    current_players * buy_in_amount
}

/// Pool of all entry fees paid in, checked against overflow by dividing
/// back. With at most 255 players and a 64-bit fee the product always fits
/// 128 bits, so the check never fires and the call always succeeds.
pub fn calculate_total_buy_ins(current_players: u8, buy_in_amount: u64) -> (r: Result<
    u128,
    ErrorCode,
>)
    requires
        buy_in_amount > 0,
    ensures
        r == Ok::<u128, ErrorCode>(
            (total_buy_ins(current_players as int, buy_in_amount as int)) as u128,
        ),
{
    proof {
        assert(current_players as int * buy_in_amount as int <= 255 * u64::MAX)
            by (nonlinear_arith)
            requires
                0 <= current_players <= 255,
                0 < buy_in_amount <= u64::MAX,
        ;
    }
    let total: u128 = current_players as u128 * buy_in_amount as u128;
    if !(total / buy_in_amount as u128 == current_players as u128) {
        proof {
            assert((current_players as int * buy_in_amount as int) / buy_in_amount as int
                == current_players as int) by (nonlinear_arith)
                requires
                    buy_in_amount > 0,
                    current_players >= 0,
            ;
        }
        return Err(ErrorCode::CalculationOverflow);
    }
    Ok(total)
}

/// Floor slice of a 128-bit pool by a basis-point percentage. Fails with
/// `CalculationOverflow` when the product does not fit 128 bits or when the
/// slice would exceed the pool (only possible for a percentage above
/// 10000); otherwise returns exactly `pct_amount(total, percentage)`.
pub fn calculate_percentage_amount(total: u128, percentage: u16) -> (r: Result<u128, ErrorCode>)
    ensures
        total as int * percentage as int <= u128::MAX && pct_amount(
            total as int,
            percentage as int,
        ) <= total as int ==> r == Ok::<u128, ErrorCode>(
            pct_amount(total as int, percentage as int) as u128,
        ),
        total as int * percentage as int > u128::MAX || pct_amount(
            total as int,
            percentage as int,
        ) > total as int ==> r == Err::<u128, ErrorCode>(ErrorCode::CalculationOverflow),
{
    proof {
        lemma_pct_amount_nonneg(total as int, percentage as int);
    }
    match total.checked_mul(percentage as u128) {
        Some(product) => {
            let amount: u128 = product / 10000;
            if amount <= total {
                Ok(amount)
            } else {
                Err(ErrorCode::CalculationOverflow)
            }
        },
        None => Err(ErrorCode::CalculationOverflow),
    }
}

} // verus!
