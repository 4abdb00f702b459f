use fjord_lbp::error::SafeMathError;
use fjord_lbp::safe_math::{
    div, div_wad, div_wad_up, exp_wad, exp_wad_checked, ln_wad, mul_div, mul_div_up, mul_wad,
    mul_wad_up, pow_wad, pow_wad_up, round_power_up, safe_add, safe_pow, safe_sub,
    scale_exponent, EXP_WAD_LIMIT, POW_UP_INCREMENT, WAD,
};

#[test]
fn wad_is_ten_to_the_ninth() {
    assert_eq!(WAD, 1_000_000_000);
}

#[test]
fn mul_wad_rounds_down() {
    assert_eq!(mul_wad(3 * WAD, 2 * WAD), Ok(6 * WAD));
    assert_eq!(mul_wad(1, 1), Ok(0));
    assert_eq!(mul_wad(WAD - 1, 1), Ok(0));
    assert_eq!(mul_wad(1_500_000_000, 3), Ok(4));
}

#[test]
fn mul_wad_up_rounds_up() {
    assert_eq!(mul_wad_up(3 * WAD, 2 * WAD), Ok(6 * WAD));
    assert_eq!(mul_wad_up(1, 1), Ok(1));
    assert_eq!(mul_wad_up(0, 5), Ok(0));
    assert_eq!(mul_wad_up(1_500_000_000, 3), Ok(5));
}

#[test]
fn mul_wad_reports_a_result_beyond_64_bits() {
    assert_eq!(mul_wad(u64::MAX, 2 * WAD), Err(SafeMathError::ConversionOverflow));
    assert_eq!(mul_wad_up(u64::MAX, 2 * WAD), Err(SafeMathError::ConversionOverflow));
    assert_eq!(mul_wad(u64::MAX, WAD), Ok(u64::MAX));
}

#[test]
fn div_wad_rounds_down_and_up() {
    assert_eq!(div_wad(1, 3), Ok(333_333_333));
    assert_eq!(div_wad_up(1, 3), Ok(333_333_334));
    assert_eq!(div_wad(6, 3), Ok(2 * WAD));
    assert_eq!(div_wad_up(6, 3), Ok(2 * WAD));
}

#[test]
fn div_wad_by_zero_is_an_error() {
    assert_eq!(div_wad(1, 0), Err(SafeMathError::DivisionUnderflow));
    assert_eq!(div_wad_up(1, 0), Err(SafeMathError::DivisionUnderflow));
    assert_eq!(div(1, 0), Err(SafeMathError::DivisionUnderflow));
    assert_eq!(mul_div(1, 1, 0), Err(SafeMathError::DivisionUnderflow));
    assert_eq!(mul_div_up(1, 1, 0), Err(SafeMathError::DivisionUnderflow));
}

#[test]
fn div_wad_reports_a_result_beyond_64_bits() {
    assert_eq!(div_wad(u64::MAX, 1), Err(SafeMathError::ConversionOverflow));
    assert_eq!(div_wad_up(u64::MAX, 1), Err(SafeMathError::ConversionOverflow));
}

#[test]
fn plain_division_and_multiplication() {
    assert_eq!(div(7, 2), Ok(3));
    assert_eq!(fjord_lbp::safe_math::mul(7, 6), Ok(42));
    assert_eq!(
        fjord_lbp::safe_math::mul(u64::MAX, 2),
        Err(SafeMathError::MultiplicationOverflow)
    );
    assert_eq!(fjord_lbp::safe_math::mul(u64::MAX, 1), Ok(u64::MAX));
}

#[test]
fn checked_addition_and_subtraction() {
    assert_eq!(safe_add(2, 3), Ok(5));
    assert_eq!(safe_add(u64::MAX, 1), Err(SafeMathError::AdditionOverflow));
    assert_eq!(safe_add(u64::MAX, 0), Ok(u64::MAX));
    assert_eq!(safe_sub(5, 3), Ok(2));
    assert_eq!(safe_sub(3, 5), Err(SafeMathError::SubtractionUnderflow));
    assert_eq!(safe_sub(3, 3), Ok(0));
}

#[test]
fn mul_div_uses_a_wide_product() {
    assert_eq!(mul_div(6, 7, 4), Ok(10));
    assert_eq!(mul_div_up(6, 7, 4), Ok(11));
    assert_eq!(mul_div(u64::MAX, u64::MAX, u64::MAX), Ok(u64::MAX));
    assert_eq!(mul_div_up(u64::MAX, u64::MAX, u64::MAX), Ok(u64::MAX));
    assert_eq!(mul_div(u64::MAX, 2, 1), Err(SafeMathError::ConversionOverflow));
}

#[test]
fn integer_powers() {
    assert_eq!(safe_pow(10, 9), Ok(1_000_000_000));
    assert_eq!(safe_pow(10, 19), Ok(10_000_000_000_000_000_000));
    assert_eq!(safe_pow(10, 20), Err(SafeMathError::ExponentiationOverflow));
    assert_eq!(safe_pow(0, 0), Ok(1));
    assert_eq!(safe_pow(0, 7), Ok(0));
    assert_eq!(safe_pow(1, u32::MAX), Ok(1));
    assert_eq!(safe_pow(0, u32::MAX), Ok(0));
    assert_eq!(safe_pow(2, 63), Ok(1 << 63));
    assert_eq!(safe_pow(2, 64), Err(SafeMathError::ExponentiationOverflow));
    assert_eq!(safe_pow(7, 1), Ok(7));
}

fn ln_of(x: i64) -> i128 {
    ((x as f64 / WAD as f64).ln() * WAD as f64) as i128
}

fn exp_of(x: i128) -> i128 {
    ((x as f64 / WAD as f64).exp() * WAD as f64).round() as i128
}

#[test]
fn logarithm_is_undefined_at_zero_and_below() {
    assert_eq!(ln_wad(0, &ln_of), Err(SafeMathError::LogarithmUndefined));
    assert_eq!(ln_wad(-1, &ln_of), Err(SafeMathError::LogarithmUndefined));
    assert_eq!(ln_wad(i64::MIN, &ln_of), Err(SafeMathError::LogarithmUndefined));
}

#[test]
fn logarithm_hands_on_what_the_primitive_answers() {
    assert_eq!(ln_wad(5, &|_x: i64| -> i128 { 42 }), Ok(42));
    assert_eq!(ln_wad(7, &|x: i64| -> i128 { -(x as i128) }), Ok(-7));
    assert_eq!(ln_wad(WAD as i64, &ln_of), Ok(0));
    assert_eq!(ln_wad(2 * WAD as i64, &ln_of), Ok(693_147_180));
    assert_eq!(ln_wad(WAD as i64 / 2, &ln_of), Ok(-693_147_180));
}

#[test]
fn exponential_is_clamped_at_the_limits() {
    assert_eq!(EXP_WAD_LIMIT, 43 * WAD as i128);
    assert_eq!(exp_wad(EXP_WAD_LIMIT, &exp_of), Err(SafeMathError::ExponentiationOverflow));
    assert_eq!(exp_wad(i128::MAX, &exp_of), Err(SafeMathError::ExponentiationOverflow));
    assert_eq!(exp_wad(-EXP_WAD_LIMIT, &exp_of), Ok(0));
    assert_eq!(exp_wad(i128::MIN, &exp_of), Ok(0));
    // Beyond the limits the primitive is not asked.
    assert_eq!(exp_wad(-EXP_WAD_LIMIT, &|_x: i128| -> i128 { 7 }), Ok(0));
    assert_eq!(exp_wad(-EXP_WAD_LIMIT + 1, &|_x: i128| -> i128 { 7 }), Ok(7));
    assert_eq!(exp_wad(EXP_WAD_LIMIT - 1, &|_x: i128| -> i128 { 7 }), Ok(7));
}

#[test]
fn exponential_must_fit_in_64_bits() {
    assert_eq!(exp_wad(0, &exp_of), Ok(WAD as i64));
    assert_eq!(exp_wad(22 * WAD as i128, &exp_of), Ok(3_584_912_846_131_591_680));
    assert_eq!(exp_wad(23 * WAD as i128, &exp_of), Err(SafeMathError::ExponentiationOverflow));
    assert_eq!(exp_wad_checked(i64::MAX as i128), Ok(i64::MAX));
    assert_eq!(exp_wad_checked(i64::MAX as i128 + 1), Err(SafeMathError::ExponentiationOverflow));
    assert_eq!(exp_wad_checked(i64::MIN as i128), Ok(i64::MIN));
    assert_eq!(exp_wad_checked(i64::MIN as i128 - 1), Err(SafeMathError::ExponentiationOverflow));
}

#[test]
fn exponent_is_scaled_toward_zero() {
    assert_eq!(scale_exponent(693_147_180, 2 * WAD as i64), Ok(1_386_294_360));
    assert_eq!(scale_exponent(-5, 500_000_000), Ok(-2));
    assert_eq!(scale_exponent(5, 500_000_000), Ok(2));
    assert_eq!(scale_exponent(-5, -500_000_000), Ok(2));
    assert_eq!(scale_exponent(0, i64::MAX), Ok(0));
    assert_eq!(scale_exponent(i128::MAX, 2), Err(SafeMathError::MultiplicationOverflow));
    assert_eq!(scale_exponent(i128::MIN, 2), Err(SafeMathError::MultiplicationOverflow));
    assert_eq!(
        scale_exponent(i128::MIN, 1),
        Ok(-170_141_183_460_469_231_731_687_303_715)
    );
}

#[test]
fn power_is_the_exponential_of_the_scaled_logarithm() {
    // The exponential primitive hands its argument back: the result is the exponent.
    let echo = |x: i128| -> i128 { x };
    assert_eq!(pow_wad(3, 2 * WAD as i64, &|_x: i64| -> i128 { 693_147_180 }, &echo), Ok(1_386_294_360));
    assert_eq!(pow_wad(3, 500_000_000, &|_x: i64| -> i128 { -5 }, &echo), Ok(-2));
    assert_eq!(pow_wad(0, WAD as i64, &ln_of, &exp_of), Err(SafeMathError::LogarithmUndefined));
    assert_eq!(
        pow_wad(3, 2, &|_x: i64| -> i128 { i128::MAX }, &echo),
        Err(SafeMathError::MultiplicationOverflow)
    );
    assert_eq!(
        pow_wad(3, WAD as i64, &|_x: i64| -> i128 { 43 * WAD as i128 }, &echo),
        Err(SafeMathError::ExponentiationOverflow)
    );
    assert_eq!(pow_wad(3, WAD as i64, &|_x: i64| -> i128 { -43 * WAD as i128 }, &echo), Ok(0));
}

#[test]
fn power_with_floating_point_primitives() {
    assert_eq!(pow_wad(WAD as i64, WAD as i64, &ln_of, &exp_of), Ok(WAD as i64));
    assert_eq!(pow_wad(2 * WAD as i64, 2 * WAD as i64, &ln_of, &exp_of), Ok(3_999_999_996));
    assert_eq!(pow_wad(WAD as i64 / 2, 2 * WAD as i64, &ln_of, &exp_of), Ok(250_000_000));
    assert_eq!(pow_wad(3 * WAD as i64, WAD as i64 / 2, &ln_of, &exp_of), Ok(1_732_050_807));
}

#[test]
fn power_is_raised_by_its_millionth_part_and_one() {
    assert_eq!(POW_UP_INCREMENT, 1_000);
    assert_eq!(round_power_up(0), Ok(1));
    assert_eq!(round_power_up(1), Ok(3));
    assert_eq!(round_power_up(WAD as i64), Ok(1_000_001_001));
    assert_eq!(round_power_up(1_500_000), Ok(1_500_003));
    assert_eq!(round_power_up(-1), Err(SafeMathError::ConversionOverflow));
    assert_eq!(round_power_up(i64::MAX), Ok(9_223_381_260_226_812_663));
    assert_eq!(pow_wad_up(WAD, WAD, &ln_of, &exp_of), Ok(1_000_001_001));
    assert_eq!(pow_wad_up(2 * WAD, 2 * WAD, &ln_of, &exp_of), Ok(4_000_003_997));
    // The raised power lies above the plain one.
    for (x, y) in [(WAD, WAD), (2 * WAD, 2 * WAD), (WAD / 2, 3 * WAD), (1, 1)] {
        let plain = pow_wad(x as i64, y as i64, &ln_of, &exp_of).unwrap();
        let raised = pow_wad_up(x, y, &ln_of, &exp_of).unwrap();
        assert!(raised as i128 > plain as i128);
    }
}

#[test]
fn power_refuses_arguments_beyond_the_signed_range() {
    assert_eq!(
        pow_wad_up(i64::MAX as u64 + 1, WAD, &ln_of, &exp_of),
        Err(SafeMathError::LogarithmUndefined)
    );
    assert_eq!(
        pow_wad_up(WAD, i64::MAX as u64 + 1, &ln_of, &exp_of),
        Err(SafeMathError::ConversionOverflow)
    );
    assert_eq!(pow_wad_up(0, WAD, &ln_of, &exp_of), Err(SafeMathError::LogarithmUndefined));
    // A base of nothing has no logarithm, whatever the exponent is.
    assert_eq!(
        pow_wad_up(0, i64::MAX as u64 + 1, &ln_of, &exp_of),
        Err(SafeMathError::LogarithmUndefined)
    );
    assert_eq!(pow_wad_up(0, u64::MAX, &ln_of, &exp_of), Err(SafeMathError::LogarithmUndefined));
    assert_eq!(
        pow_wad_up(u64::MAX, u64::MAX, &ln_of, &exp_of),
        Err(SafeMathError::LogarithmUndefined)
    );
    assert_eq!(
        pow_wad_up(1, i64::MAX as u64 + 1, &ln_of, &exp_of),
        Err(SafeMathError::ConversionOverflow)
    );
    assert_eq!(
        pow_wad_up(WAD, WAD, &ln_of, &|_x: i128| -> i128 { -1 }),
        Err(SafeMathError::ConversionOverflow)
    );
}
