use vstd::prelude::*;
use vstd::arithmetic::div_mod::lemma_div_is_ordered;

use crate::error::Error;

verus! {

/// Seconds in a (non-leap) year, the period an annual rate refers to.
pub const SECONDS_PER_YEAR: i128 = 31536000;

/// Basis points in one whole (10000 bps = 100%).
pub const BASIS_POINTS: i128 = 10000;

/// The combined divisor of the interest formula.
pub const YEAR_BASIS_DIVISOR: i128 = SECONDS_PER_YEAR * BASIS_POINTS;

/// Whether a mathematical integer is representable as an `i128`.
pub open spec fn fits_i128(x: int) -> bool {
    i128::MIN <= x <= i128::MAX
}

/// Integer division truncating toward zero, for a positive divisor.
pub open spec fn div_trunc(x: int, d: int) -> int {
    if x >= 0 {
        x / d
    } else {
        -((-x) / d)
    }
}

/// Interest earned by `balance` at `rate` basis points a year over `elapsed` seconds.
pub open spec fn interest_value(balance: int, rate: int, elapsed: int) -> int {
    div_trunc(balance * rate * elapsed, YEAR_BASIS_DIVISOR as int)
}

/// Both intermediate products of the interest formula fit in an `i128`.
pub open spec fn interest_fits(balance: int, rate: int, elapsed: int) -> bool {
    fits_i128(balance * rate) && fits_i128(balance * rate * elapsed)
}

/// Penalty of `rate` basis points taken from `total`.
pub open spec fn penalty_value(total: int, rate: int) -> int {
    div_trunc(total * rate, BASIS_POINTS as int)
}

proof fn lemma_div_trunc_bounded(x: int, d: int)
    requires
        d > 0,
    ensures
        x >= 0 ==> 0 <= div_trunc(x, d) <= x,
        x < 0 ==> x <= div_trunc(x, d) <= 0,
{
    if x >= 0 {
        assert(0 <= x / d <= x) by (nonlinear_arith)
            requires
                x >= 0,
                d > 0,
        ;
    } else {
        let y = -x;
        assert(0 <= y / d <= y) by (nonlinear_arith)
            requires
                y >= 0,
                d > 0,
        ;
    }
}

/// Checked division of `x` by the positive constant `d`, truncating toward zero.
fn checked_div_trunc(x: i128, d: i128) -> (r: Result<i128, Error>)
    requires
        d > 0,
    ensures
        r == Ok::<i128, Error>(div_trunc(x as int, d as int) as i128),
        fits_i128(div_trunc(x as int, d as int)),
{
    proof {
        lemma_div_trunc_bounded(x as int, d as int);
    }
    match x.checked_div(d) {
        Some(q) => Ok(q),
        None => Err(Error::DivisionError),
    }
}

/// Interest accrued by `balance` at `rate_bps` basis points a year over
/// `elapsed_seconds`: `balance * rate_bps * elapsed_seconds / (SECONDS_PER_YEAR * BASIS_POINTS)`,
/// multiplying first and truncating toward zero at the end.
pub fn accrue(balance: i128, rate_bps: u32, elapsed_seconds: u64) -> (r: Result<i128, Error>)
    ensures
        interest_fits(balance as int, rate_bps as int, elapsed_seconds as int) ==> r == Ok::<
            i128,
            Error,
        >(interest_value(balance as int, rate_bps as int, elapsed_seconds as int) as i128),
        !interest_fits(balance as int, rate_bps as int, elapsed_seconds as int) ==> r == Err::<
            i128,
            Error,
        >(Error::Overflow),
        r is Ok ==> fits_i128(interest_value(balance as int, rate_bps as int, elapsed_seconds as int)),
{
    let scaled = match balance.checked_mul(rate_bps as i128) {
        Some(v) => v,
        None => return Err(Error::Overflow),
    };
    let product = match scaled.checked_mul(elapsed_seconds as i128) {
        Some(v) => v,
        None => return Err(Error::Overflow),
    };
    checked_div_trunc(product, YEAR_BASIS_DIVISOR)
}

/// Penalty of `rate_bps` basis points on `total`: `total * rate_bps / BASIS_POINTS`,
/// truncating toward zero.
pub fn penalty(total: i128, rate_bps: u32) -> (r: Result<i128, Error>)
    ensures
        fits_i128(total as int * rate_bps as int) ==> r == Ok::<i128, Error>(
            penalty_value(total as int, rate_bps as int) as i128,
        ),
        !fits_i128(total as int * rate_bps as int) ==> r == Err::<i128, Error>(Error::Overflow),
        r is Ok ==> fits_i128(penalty_value(total as int, rate_bps as int)),
{
    let scaled = match total.checked_mul(rate_bps as i128) {
        Some(v) => v,
        None => return Err(Error::Overflow),
    };
    checked_div_trunc(scaled, BASIS_POINTS)
}

/// Interest never decreases as more time elapses on a non-negative balance, and
/// whenever the longer period is computable, so is the shorter one.
pub proof fn lemma_accrue_monotonic(balance: i128, rate_bps: u32, elapsed1: u64, elapsed2: u64)
    requires
        balance >= 0,
        elapsed1 < elapsed2,
    ensures
        interest_value(balance as int, rate_bps as int, elapsed1 as int) <= interest_value(
            balance as int,
            rate_bps as int,
            elapsed2 as int,
        ),
        interest_fits(balance as int, rate_bps as int, elapsed2 as int) ==> interest_fits(
            balance as int,
            rate_bps as int,
            elapsed1 as int,
        ),
{
    let br = balance as int * rate_bps as int;
    let e1 = elapsed1 as int;
    let e2 = elapsed2 as int;
    assert(br >= 0) by (nonlinear_arith)
        requires
            balance >= 0,
            rate_bps >= 0,
            br == balance as int * rate_bps as int,
    ;
    assert(0 <= br * e1 <= br * e2) by (nonlinear_arith)
        requires
            br >= 0,
            0 <= e1 < e2,
    ;
    lemma_div_is_ordered(br * e1, br * e2, YEAR_BASIS_DIVISOR as int);
}

} // verus!
