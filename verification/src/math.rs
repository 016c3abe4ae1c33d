//! Checked arithmetic for token amounts, counters and ledger sequences.
//!
//! Every helper returns the mathematically exact result or a [`MathError`]:
//! nothing saturates, wraps or panics. Division rounds toward zero.
//!
//! Ratios check the intermediate product: a ratio whose product leaves `i128`
//! is refused even where the quotient would have fitted.

use crate::error::Error;
use vstd::prelude::*;

verus! {

/// Why a checked arithmetic operation failed.
#[derive(Copy, Clone, Debug, PartialEq, Eq, Structural)]
pub enum MathError {
    /// The exact result does not fit in the destination type.
    Overflow,
    /// A denominator (or divisor) was zero.
    DivideByZero,
}

impl From<MathError> for Error {
    fn from(e: MathError) -> (r: Self) {
        match e {
            MathError::Overflow | MathError::DivideByZero => Error::MathOverflow,
        }
    }
}

impl vstd::std_specs::convert::FromSpecImpl<MathError> for Error {
    open spec fn obeys_from_spec() -> bool {
        true
    }

    open spec fn from_spec(e: MathError) -> Error {
        Error::MathOverflow
    }
}

/// The highest fee, in basis points (hundredths of a percent): 100%.
pub const MAX_FEE_BPS: u32 = 10_000;

/// `v` is a value of `i128`.
pub open spec fn is_amount(v: int) -> bool {
    i128::MIN <= v <= i128::MAX
}

/// The token amount that is exactly `v`, or an overflow if there is none.
pub open spec fn exact_amount(v: int) -> Result<i128, MathError> {
    if is_amount(v) {
        Ok(v as i128)
    } else {
        Err(MathError::Overflow)
    }
}

/// The absolute value of `x`.
pub open spec fn magnitude(x: int) -> int {
    if x < 0 {
        -x
    } else {
        x
    }
}

/// `x / d` rounded toward zero.
pub open spec fn truncated_quotient(x: int, d: int) -> int
    recommends
        d != 0,
{
    if x >= 0 && d > 0 {
        x / d
    } else if x >= 0 {
        -(x / -d)
    } else if d > 0 {
        -(-x / d)
    } else {
        -x / -d
    }
}

/// `a / b` rounded toward zero, refused for a zero divisor.
pub open spec fn exact_quotient(a: int, b: int) -> Result<i128, MathError> {
    if b == 0 {
        Err(MathError::DivideByZero)
    } else {
        exact_amount(truncated_quotient(a, b))
    }
}

/// `value * numerator / denominator` rounded toward zero, refused for a zero
/// denominator and for a product that is no `i128`.
pub open spec fn exact_ratio(value: int, numerator: int, denominator: int) -> Result<
    i128,
    MathError,
> {
    if denominator == 0 {
        Err(MathError::DivideByZero)
    } else if !is_amount(value * numerator) {
        Err(MathError::Overflow)
    } else {
        exact_amount(truncated_quotient(value * numerator, denominator))
    }
}

/// The fee of `fee_bps` basis points on `value`, refused above 100%.
pub open spec fn exact_fee(value: int, fee_bps: int) -> Result<i128, MathError> {
    if fee_bps > MAX_FEE_BPS {
        Err(MathError::Overflow)
    } else {
        exact_ratio(value, fee_bps, MAX_FEE_BPS as int)
    }
}

/// `total + delta`, refused where it is no `i128` or passes the ceiling.
pub open spec fn exact_accumulation(total: int, delta: int, ceiling: Option<i128>) -> Result<
    i128,
    MathError,
> {
    match ceiling {
        Some(cap) if total + delta > cap => Err(MathError::Overflow),
        _ => exact_amount(total + delta),
    }
}

/// The `u64` counter that is exactly `v`, or an overflow if there is none.
pub open spec fn exact_counter(v: int) -> Result<u64, MathError> {
    if 0 <= v <= u64::MAX {
        Ok(v as u64)
    } else {
        Err(MathError::Overflow)
    }
}

/// Checked `a + b` for token amounts.
pub fn add_amounts(a: i128, b: i128) -> (r: Result<i128, MathError>)
    ensures
        r == exact_amount(a + b),
        r is Ok <==> i128::MIN <= a + b <= i128::MAX,
        r matches Ok(v) ==> v == a + b,
        r matches Err(e) ==> e == MathError::Overflow,
{
    a.checked_add(b).ok_or(MathError::Overflow)
}

/// Checked `a - b` for token amounts.
pub fn sub_amounts(a: i128, b: i128) -> (r: Result<i128, MathError>)
    ensures
        r == exact_amount(a - b),
        r is Ok <==> i128::MIN <= a - b <= i128::MAX,
        r matches Ok(v) ==> v == a - b,
        r matches Err(e) ==> e == MathError::Overflow,
{
    a.checked_sub(b).ok_or(MathError::Overflow)
}

/// Checked `a * b` for token amounts.
pub fn mul_amounts(a: i128, b: i128) -> (r: Result<i128, MathError>)
    ensures
        r == exact_amount(a * b),
        r is Ok <==> i128::MIN <= a * b <= i128::MAX,
        r matches Ok(v) ==> v == a * b,
        r matches Err(e) ==> e == MathError::Overflow,
{
    a.checked_mul(b).ok_or(MathError::Overflow)
}

/// Checked `a / b` for token amounts; a zero divisor is refused.
pub fn div_amounts(a: i128, b: i128) -> (r: Result<i128, MathError>)
    ensures
        r == exact_quotient(a as int, b as int),
        r == Err::<i128, MathError>(MathError::DivideByZero) <==> b == 0,
        r == Err::<i128, MathError>(MathError::Overflow) <==> a == i128::MIN && b == -1,
        r matches Ok(q) ==> {
            &&& a >= 0 ==> a - q * b >= 0
            &&& a <= 0 ==> a - q * b <= 0
            &&& b > 0 ==> -b < a - q * b < b
            &&& b < 0 ==> b < a - q * b < -b
        },
{
    proof {
        if b != 0 {
            law_quotient_rounds_toward_zero(a as int, b as int);
            law_only_one_quotient_overflows(a, b);
        }
    }
    if b == 0 {
        return Err(MathError::DivideByZero);
    }
    proof {
        lemma_zero_quotient(b as int);
    }
    // `i128::MIN / -1` is the one quotient that overflows.
    a.checked_div(b).ok_or(MathError::Overflow)
}

/// Checked running total: `total + delta`, refusing to move past `ceiling`
/// where one is given.
pub fn checked_accumulate(total: i128, delta: i128, ceiling: Option<i128>) -> (r: Result<
    i128,
    MathError,
>)
    ensures
        r == exact_accumulation(total as int, delta as int, ceiling),
        r is Ok <==> {
            &&& i128::MIN <= total + delta <= i128::MAX
            &&& ceiling matches Some(cap) ==> total + delta <= cap
        },
        r matches Ok(next) ==> next == total + delta,
        r matches Err(e) ==> e == MathError::Overflow,
{
    let next: i128 = match add_amounts(total, delta) {
        Ok(sum) => sum,
        Err(e) => return Err(e),
    };
    if let Some(cap) = ceiling {
        if next > cap {
            return Err(MathError::Overflow);
        }
    }
    Ok(next)
}

/// Widens a `u64` counter into a token amount.
pub fn u64_to_amount(v: u64) -> (r: i128)
    ensures
        r == v,
{
    v as i128
}

/// Narrows a token amount to a `u64` counter; an amount that is no `u64` is
/// refused, not truncated.
pub fn amount_to_u64(amount: i128) -> (r: Result<u64, MathError>)
    ensures
        r == exact_counter(amount as int),
        r is Ok <==> 0 <= amount <= u64::MAX,
        r matches Ok(v) ==> v == amount,
        r matches Err(e) ==> e == MathError::Overflow,
{
    if amount < 0 {
        return Err(MathError::Overflow);
    }
    match u64::try_from(amount) {
        Ok(v) => Ok(v),
        Err(_) => Err(MathError::Overflow),
    }
}

/// Checked ledger sequence `base + offset`; a sequence beyond `u32::MAX` is
/// refused.
pub fn checked_ledger_add(base: u32, offset: u32) -> (r: Result<u32, MathError>)
    ensures
        r == if base + offset <= u32::MAX {
            Ok((base + offset) as u32)
        } else {
            Err(MathError::Overflow)
        },
{
    base.checked_add(offset).ok_or(MathError::Overflow)
}

/// `value * numerator / denominator`, checked end to end.
pub fn mul_ratio(value: i128, numerator: i128, denominator: i128) -> (r: Result<i128, MathError>)
    ensures
        r == exact_ratio(value as int, numerator as int, denominator as int),
        r == Err::<i128, MathError>(MathError::DivideByZero) <==> denominator == 0,
        r == Err::<i128, MathError>(MathError::Overflow) <==> denominator != 0 && (value * numerator
            < i128::MIN || value * numerator > i128::MAX || (value * numerator == i128::MIN
            && denominator == -1)),
        r matches Ok(q) ==> {
            &&& value * numerator >= 0 ==> value * numerator - q * denominator >= 0
            &&& value * numerator <= 0 ==> value * numerator - q * denominator <= 0
            &&& denominator > 0 ==> -denominator < value * numerator - q * denominator < denominator
            &&& denominator < 0 ==> denominator < value * numerator - q * denominator < -denominator
        },
{
    if denominator == 0 {
        return Err(MathError::DivideByZero);
    }
    proof {
        law_ratio_is_exact_or_refused(value, numerator, denominator);
    }
    let product: i128 = match mul_amounts(value, numerator) {
        Ok(p) => p,
        Err(e) => return Err(e),
    };
    div_amounts(product, denominator)
}

/// The fee of `fee_bps` basis points on `value`; more than [`MAX_FEE_BPS`] is
/// refused.
pub fn apply_fee_bps(value: i128, fee_bps: u32) -> (r: Result<i128, MathError>)
    ensures
        r == exact_fee(value as int, fee_bps as int),
        r is Ok <==> fee_bps <= 10_000 && i128::MIN <= value * fee_bps <= i128::MAX,
        r matches Err(e) ==> e == MathError::Overflow,
        r matches Ok(fee) ==> {
            &&& value >= 0 ==> fee * 10_000 <= value * fee_bps < fee * 10_000 + 10_000
            &&& value <= 0 ==> fee * 10_000 - 10_000 < value * fee_bps <= fee * 10_000
        },
{
    proof {
        law_fee_is_the_rate(value, fee_bps);
    }
    if fee_bps > MAX_FEE_BPS {
        return Err(MathError::Overflow);
    }
    mul_ratio(value, fee_bps as i128, MAX_FEE_BPS as i128)
}

/// Rounding is toward zero: the quotient leaves a remainder that is smaller than
/// the divisor and has the sign of the dividend.
pub proof fn law_quotient_rounds_toward_zero(x: int, d: int)
    requires
        d != 0,
    ensures
        ({
            let rest = x - truncated_quotient(x, d) * d;
            &&& x >= 0 ==> rest >= 0
            &&& x <= 0 ==> rest <= 0
            &&& d > 0 ==> -d < rest < d
            &&& d < 0 ==> d < rest < -d
        }),
        magnitude(truncated_quotient(x, d)) <= magnitude(x),
{
    let m = magnitude(x);
    let n = magnitude(d);
    let q = m / n;
    vstd::arithmetic::div_mod::lemma_fundamental_div_mod(m, n);
    vstd::arithmetic::div_mod::lemma_mod_bound(m, n);
    assert(0 <= q <= m) by (nonlinear_arith)
        requires
            m == n * q + m % n,
            0 <= m % n < n,
            m >= 0,
            n > 0,
    ;
    assert((-q) * d == -(q * d)) by (nonlinear_arith);
    assert(q * n == n * q) by (nonlinear_arith);
    assert(q * (-n) == -(n * q)) by (nonlinear_arith);
}

/// A result that an amount can hold is given as it is, and any other is an
/// overflow: nothing saturates or wraps.
pub proof fn law_amount_is_exact_or_refused(v: int)
    ensures
        i128::MIN <= v <= i128::MAX ==> (exact_amount(v) matches Ok(amount) && amount == v),
        v < i128::MIN || v > i128::MAX ==> exact_amount(v) == Err::<i128, MathError>(
            MathError::Overflow,
        ),
{
}

/// A counter is given as it is, and an amount that is negative or too large for
/// one is an overflow.
pub proof fn law_counter_is_exact_or_refused(v: int)
    ensures
        0 <= v <= u64::MAX ==> (exact_counter(v) matches Ok(counter) && counter == v),
        v < 0 || v > u64::MAX ==> exact_counter(v) == Err::<u64, MathError>(MathError::Overflow),
{
}

/// A running total is refused exactly where it would pass its ceiling or leave the
/// range of an amount.
pub proof fn law_accumulation_is_exact_or_refused(total: i128, delta: i128, ceiling: Option<i128>)
    ensures
        ({
            let next = exact_accumulation(total as int, delta as int, ceiling);
            let admitted = {
                &&& i128::MIN <= total + delta <= i128::MAX
                &&& ceiling matches Some(cap) ==> total + delta <= cap
            };
            &&& admitted ==> (next matches Ok(sum) && sum == total + delta)
            &&& !admitted ==> next == Err::<i128, MathError>(MathError::Overflow)
        }),
{
}

/// A ratio is refused exactly for a zero denominator, for a product beyond the
/// range of an amount, and for the one quotient beyond it. Otherwise it is the
/// product over the denominator, rounded toward zero.
pub proof fn law_ratio_is_exact_or_refused(value: i128, numerator: i128, denominator: i128)
    ensures
        ({
            let product = value * numerator;
            let ratio = exact_ratio(value as int, numerator as int, denominator as int);
            &&& ratio == Err::<i128, MathError>(MathError::DivideByZero) <==> denominator == 0
            &&& ratio == Err::<i128, MathError>(MathError::Overflow) <==> denominator != 0 && (product
                < i128::MIN || product > i128::MAX || (product == i128::MIN && denominator == -1))
            &&& ratio matches Ok(q) ==> {
                &&& product >= 0 ==> product - q * denominator >= 0
                &&& product <= 0 ==> product - q * denominator <= 0
                &&& denominator > 0 ==> -denominator < product - q * denominator < denominator
                &&& denominator < 0 ==> denominator < product - q * denominator < -denominator
            }
        }),
{
    let product = value * numerator;
    if denominator != 0 {
        law_quotient_rounds_toward_zero(product, denominator as int);
        if is_amount(product) {
            law_only_one_quotient_overflows(product as i128, denominator);
        }
    }
}

/// A fee is its rate, in ten-thousandths, of the value to within one unit, and errs
/// toward zero. It is refused exactly for a rate above 100% and for a product
/// beyond the range of an amount.
pub proof fn law_fee_is_the_rate(value: i128, fee_bps: u32)
    ensures
        ({
            let charged = exact_fee(value as int, fee_bps as int);
            &&& charged is Ok <==> fee_bps <= 10_000 && i128::MIN <= value * fee_bps <= i128::MAX
            &&& charged matches Err(e) ==> e == MathError::Overflow
            &&& charged matches Ok(fee) ==> {
                &&& value >= 0 ==> fee * 10_000 <= value * fee_bps < fee * 10_000 + 10_000
                &&& value <= 0 ==> fee * 10_000 - 10_000 < value * fee_bps <= fee * 10_000
            }
        }),
{
    let v = value as int;
    let b = fee_bps as int;
    assert(v >= 0 ==> v * b >= 0) by (nonlinear_arith)
        requires
            b >= 0,
    ;
    assert(v <= 0 ==> v * b <= 0) by (nonlinear_arith)
        requires
            b >= 0,
    ;
}

/// Both ways to fail are one overflow to a caller of the contracts.
pub proof fn law_math_errors_are_overflows(e: MathError)
    ensures
        <Error as vstd::std_specs::convert::FromSpec<MathError>>::from_spec(e)
            == Error::MathOverflow,
{
}

/// Subtracting what was added gives the first amount back.
pub proof fn law_sub_undoes_add(a: i128, b: i128)
    ensures
        exact_amount(a + b) matches Ok(sum) ==> exact_amount(sum - b) == Ok::<i128, MathError>(a),
{
}

/// Adding what was subtracted gives the first amount back.
pub proof fn law_add_undoes_sub(a: i128, b: i128)
    ensures
        exact_amount(a - b) matches Ok(rest) ==> exact_amount(rest + b) == Ok::<i128, MathError>(a),
{
}

/// Dividing by what was multiplied by gives the first amount back.
pub proof fn law_div_undoes_mul(a: i128, b: i128)
    requires
        b != 0,
    ensures
        exact_amount(a * b) matches Ok(product) ==> exact_quotient(product as int, b as int) == Ok::<
            i128,
            MathError,
        >(a),
{
    lemma_quotient_of_multiple(a as int, b as int);
}

/// A division by zero is refused as such; any other quotient that is given leaves a
/// remainder that is smaller than the divisor and has the sign of the dividend.
pub proof fn law_quotient_is_exact_or_refused(a: i128, b: i128)
    ensures
        exact_quotient(a as int, b as int) == Err::<i128, MathError>(MathError::DivideByZero)
            <==> b == 0,
        exact_quotient(a as int, b as int) matches Ok(q) ==> {
            &&& a >= 0 ==> a - q * b >= 0
            &&& a <= 0 ==> a - q * b <= 0
            &&& b > 0 ==> -b < a - q * b < b
            &&& b < 0 ==> b < a - q * b < -b
        },
{
    if b != 0 {
        law_quotient_rounds_toward_zero(a as int, b as int);
        law_only_one_quotient_overflows(a, b);
    }
}

/// `i128::MIN / -1` is the only division of amounts that overflows.
pub proof fn law_only_one_quotient_overflows(a: i128, b: i128)
    requires
        b != 0,
    ensures
        exact_quotient(a as int, b as int) is Err <==> (a == i128::MIN && b == -1),
        exact_quotient(a as int, b as int) matches Err(e) ==> e == MathError::Overflow,
{
    let x = a as int;
    let d = b as int;
    law_quotient_rounds_toward_zero(x, d);
    if d == -1 {
        assert(x == -truncated_quotient(x, d)) by {
            assert(truncated_quotient(x, d) * -1 == -truncated_quotient(x, d)) by (nonlinear_arith);
        }
    } else if x == i128::MIN {
        if d < 0 {
            let m = -x;
            let n = -d;
            assert(m / n <= i128::MAX) by (nonlinear_arith)
                requires
                    n >= 2,
                    m == i128::MAX + 1,
            ;
        } else {
            assert(truncated_quotient(x, d) == -((-x) / d));
        }
    }
}

/// A running total never passes its ceiling, and moves by the delta exactly.
pub proof fn law_accumulation_respects_ceiling(total: i128, delta: i128, cap: i128)
    ensures
        exact_accumulation(total as int, delta as int, Some(cap)) matches Ok(next) ==> next == total
            + delta && next <= cap,
        exact_accumulation(total as int, delta as int, None) matches Ok(next) ==> next == total
            + delta,
{
}

/// A counter survives the way through a token amount and back.
pub proof fn law_counter_roundtrip(v: u64)
    ensures
        exact_counter(v as int) == Ok::<u64, MathError>(v),
{
}

/// An amount that narrows to a counter is the amount that the counter widens to.
pub proof fn law_amount_roundtrip(amount: i128)
    ensures
        exact_counter(amount as int) matches Ok(v) ==> v as i128 == amount,
{
}

/// A fee takes from nothing to all of the value it is charged on, and never
/// more: nothing at zero basis points, everything at [`MAX_FEE_BPS`].
pub proof fn law_fee_is_part_of_value(value: i128, fee_bps: u32)
    ensures
        exact_fee(value as int, fee_bps as int) matches Ok(fee) ==> {
            &&& value >= 0 ==> 0 <= fee <= value
            &&& value <= 0 ==> value <= fee <= 0
            &&& fee_bps == 0 ==> fee == 0
            &&& fee_bps == MAX_FEE_BPS ==> fee == value
        },
        exact_fee(value as int, 0) == Ok::<i128, MathError>(0i128),
{
    let v = value as int;
    let b = fee_bps as int;
    let m = magnitude(v);
    assert(v * 0 == 0);
    lemma_zero_quotient(MAX_FEE_BPS as int);
    if b <= MAX_FEE_BPS {
        assert(magnitude(v * b) == m * b) by (nonlinear_arith)
            requires
                b >= 0,
                m == magnitude(v),
        ;
        assert(0 <= (m * b) / 10_000 <= m) by (nonlinear_arith)
            requires
                0 <= b <= 10_000,
                m >= 0,
        ;
        assert(v >= 0 ==> v * b >= 0) by (nonlinear_arith)
            requires
                b >= 0,
        ;
        assert(v < 0 ==> v * b <= 0) by (nonlinear_arith)
            requires
                b >= 0,
        ;
        if b == MAX_FEE_BPS {
            lemma_quotient_of_multiple(v, MAX_FEE_BPS as int);
        }
    }
}

/// A higher rate never charges less on the same value.
pub proof fn law_fee_grows_with_rate(value: i128, low_bps: u32, high_bps: u32)
    requires
        value >= 0,
        low_bps <= high_bps,
    ensures
        exact_fee(value as int, high_bps as int) matches Ok(high) ==> (exact_fee(
            value as int,
            low_bps as int,
        ) matches Ok(low) && low <= high),
{
    let v = value as int;
    let lo = low_bps as int;
    let hi = high_bps as int;
    assert(0 <= v * lo <= v * hi) by (nonlinear_arith)
        requires
            v >= 0,
            0 <= lo <= hi,
    ;
    let low = v * lo;
    let high = v * hi;
    assert(0 <= low / 10_000 <= high / 10_000 <= high);
    if hi <= MAX_FEE_BPS {
        assert(truncated_quotient(low, MAX_FEE_BPS as int) == low / 10_000);
        assert(truncated_quotient(high, MAX_FEE_BPS as int) == high / 10_000);
    }
}

proof fn lemma_quotient_of_multiple(a: int, d: int)
    requires
        d != 0,
    ensures
        truncated_quotient(a * d, d) == a,
{
    let m = magnitude(a);
    let n = magnitude(d);
    assert(magnitude(a * d) == m * n) by (nonlinear_arith)
        requires
            m == magnitude(a),
            n == magnitude(d),
    ;
    vstd::arithmetic::div_mod::lemma_div_by_multiple(m, n);
    assert(a * d < 0 <==> (a < 0 && d > 0) || (a > 0 && d < 0)) by (nonlinear_arith);
    if a == 0 {
        lemma_zero_quotient(d);
    }
}

proof fn lemma_zero_quotient(d: int)
    requires
        d != 0,
    ensures
        truncated_quotient(0, d) == 0,
{
    assert(0int / magnitude(d) == 0) by (nonlinear_arith)
        requires
            magnitude(d) > 0,
    ;
}

} // verus!
