use accensa_contracts::error::Error;
use accensa_contracts::math::{
    add_amounts, amount_to_u64, apply_fee_bps, checked_accumulate, checked_ledger_add, div_amounts,
    mul_amounts, mul_ratio, sub_amounts, u64_to_amount, MathError, MAX_FEE_BPS,
};

// add / sub / mul / div

#[test]
fn add_sub_roundtrip() {
    assert_eq!(add_amounts(5, 7), Ok(12));
    assert_eq!(sub_amounts(12, 7), Ok(5));
    assert_eq!(sub_amounts(7, 12), Ok(-5));
}

#[test]
fn add_overflow_at_i128_max() {
    assert_eq!(add_amounts(i128::MAX, 1), Err(MathError::Overflow));
    assert_eq!(add_amounts(i128::MAX, i128::MAX), Err(MathError::Overflow));
}

#[test]
fn sub_underflow_at_i128_min() {
    assert_eq!(sub_amounts(i128::MIN, 1), Err(MathError::Overflow));
}

#[test]
fn mul_overflow_rejected() {
    assert_eq!(mul_amounts(i128::MAX, 2), Err(MathError::Overflow));
    assert_eq!(mul_amounts(i128::MAX, -2), Err(MathError::Overflow));
    assert_eq!(mul_amounts(0, i128::MAX), Ok(0));
}

#[test]
fn div_by_zero_rejected_not_trapped() {
    assert_eq!(div_amounts(10, 0), Err(MathError::DivideByZero));
    assert_eq!(div_amounts(0, 0), Err(MathError::DivideByZero));
}

#[test]
fn div_i128_min_by_minus_one_rejected() {
    // The single `checked_div` overflow case.
    assert_eq!(div_amounts(i128::MIN, -1), Err(MathError::Overflow));
    assert_eq!(div_amounts(i128::MIN, 1), Ok(i128::MIN));
}

// checked_accumulate

#[test]
fn accumulate_respects_ceiling() {
    assert_eq!(checked_accumulate(90, 10, Some(100)), Ok(100));
    assert_eq!(
        checked_accumulate(90, 11, Some(100)),
        Err(MathError::Overflow)
    );
    assert_eq!(
        checked_accumulate(i128::MAX, 1, None),
        Err(MathError::Overflow)
    );
}

// conversions (truncation hazards)

#[test]
fn u64_max_roundtrips_through_i128() {
    assert_eq!(u64_to_amount(u64::MAX), u64::MAX as i128);
    assert_eq!(amount_to_u64(u64::MAX as i128), Ok(u64::MAX));
}

#[test]
fn amount_to_u64_rejects_negative_and_too_large() {
    assert_eq!(amount_to_u64(-1), Err(MathError::Overflow));
    assert_eq!(
        amount_to_u64(u64::MAX as i128 + 1),
        Err(MathError::Overflow)
    );
    assert_eq!(amount_to_u64(i128::MAX), Err(MathError::Overflow));
}

// ledger arithmetic

#[test]
fn ledger_add_bounds() {
    assert_eq!(checked_ledger_add(100, 200), Ok(300));
    assert_eq!(checked_ledger_add(u32::MAX, 1), Err(MathError::Overflow));
    assert_eq!(checked_ledger_add(u32::MAX, 0), Ok(u32::MAX));
}

// ratios and fees

#[test]
fn ratio_exact_and_rounded_down() {
    assert_eq!(mul_ratio(1000, 50, 100), Ok(500));
    // Integer division rounds toward zero, as everywhere else in the
    // codebase's fee math.
    assert_eq!(mul_ratio(999, 50, 100), Ok(499));
}

#[test]
fn ratio_zero_denominator_rejected() {
    assert_eq!(mul_ratio(1000, 50, 0), Err(MathError::DivideByZero));
}

#[test]
fn ratio_intermediate_overflow_rejected_even_when_result_fits() {
    // The result 1 fits trivially, but the intermediate product would
    // overflow — the pipeline must reject it rather than wrap.
    assert_eq!(
        mul_ratio(i128::MAX, i128::MAX, i128::MAX),
        Err(MathError::Overflow)
    );
}

#[test]
fn fee_bps_boundaries() {
    assert_eq!(apply_fee_bps(10_000, 0), Ok(0));
    assert_eq!(apply_fee_bps(10_000, 100), Ok(100)); // 1%
    assert_eq!(apply_fee_bps(10_000, 10_000), Ok(10_000)); // 100%
    assert_eq!(apply_fee_bps(10_000, 10_001), Err(MathError::Overflow));
    // `i128::MAX` value with a 1% fee overflows the intermediate product.
    assert_eq!(apply_fee_bps(i128::MAX, 100), Err(MathError::Overflow));
}

// error mapping

#[test]
fn math_error_maps_to_contract_error() {
    let e: Error = MathError::Overflow.into();
    assert_eq!(e, Error::MathOverflow);
    let e: Error = MathError::DivideByZero.into();
    assert_eq!(e, Error::MathOverflow);
}

// laws on concrete values and edge cases

#[test]
fn division_rounds_toward_zero_for_all_signs() {
    assert_eq!(div_amounts(7, 2), Ok(3));
    assert_eq!(div_amounts(-7, 2), Ok(-3));
    assert_eq!(div_amounts(7, -2), Ok(-3));
    assert_eq!(div_amounts(-7, -2), Ok(3));
    assert_eq!(div_amounts(0, -5), Ok(0));
}

#[test]
fn quotient_and_remainder_rebuild_the_dividend() {
    for (x, d) in [(17i128, 5i128), (-17, 5), (17, -5), (-17, -5), (4, 9), (-4, 9)] {
        let q = div_amounts(x, d).unwrap();
        let rest = x - q * d;
        assert!(rest.abs() < d.abs());
        assert!(rest == 0 || rest.signum() == x.signum());
    }
}

#[test]
fn sub_undoes_add_and_add_undoes_sub() {
    let sum = add_amounts(i128::MAX - 3, 3).unwrap();
    assert_eq!(sum, i128::MAX);
    assert_eq!(sub_amounts(sum, 3), Ok(i128::MAX - 3));
    let rest = sub_amounts(i128::MIN + 4, 4).unwrap();
    assert_eq!(rest, i128::MIN);
    assert_eq!(add_amounts(rest, 4), Ok(i128::MIN + 4));
}

#[test]
fn div_undoes_mul() {
    let product = mul_amounts(-123_456, 789).unwrap();
    assert_eq!(product, -97_406_784);
    assert_eq!(div_amounts(product, 789), Ok(-123_456));
}

#[test]
fn multiplication_at_the_lower_end() {
    assert_eq!(mul_amounts(i128::MIN, 1), Ok(i128::MIN));
    assert_eq!(mul_amounts(i128::MIN, -1), Err(MathError::Overflow));
}

#[test]
fn accumulation_without_ceiling_moves_by_the_delta() {
    assert_eq!(checked_accumulate(5, -7, None), Ok(-2));
    assert_eq!(checked_accumulate(5, 7, Some(i128::MAX)), Ok(12));
    assert_eq!(
        checked_accumulate(i128::MAX, 1, Some(i128::MAX)),
        Err(MathError::Overflow)
    );
    assert_eq!(
        checked_accumulate(10, -1, Some(5)),
        Err(MathError::Overflow)
    );
}

#[test]
fn counters_roundtrip_through_amounts() {
    for v in [0u64, 1, 41, u64::MAX - 1, u64::MAX] {
        assert_eq!(amount_to_u64(u64_to_amount(v)), Ok(v));
    }
    assert_eq!(amount_to_u64(i128::MIN), Err(MathError::Overflow));
}

#[test]
fn ratio_checks_denominator_before_product() {
    assert_eq!(
        mul_ratio(i128::MAX, i128::MAX, 0),
        Err(MathError::DivideByZero)
    );
    assert_eq!(mul_ratio(i128::MIN, 1, -1), Err(MathError::Overflow));
    assert_eq!(mul_ratio(-999, 50, 100), Ok(-499));
    assert_eq!(mul_ratio(7, -3, 2), Ok(-10));
}

#[test]
fn fee_never_exceeds_value_and_grows_with_rate() {
    let mut last = 0;
    for bps in [0u32, 1, 99, 100, 2_500, 9_999, MAX_FEE_BPS] {
        let fee = apply_fee_bps(12_345, bps).unwrap();
        assert!((last..=12_345).contains(&fee));
        last = fee;
    }
    assert_eq!(apply_fee_bps(12_345, 2_500), Ok(3_086));
    assert_eq!(apply_fee_bps(-12_345, 2_500), Ok(-3_086));
    assert_eq!(apply_fee_bps(12_345, MAX_FEE_BPS), Ok(12_345));
    assert_eq!(apply_fee_bps(i128::MAX, 0), Ok(0));
}
