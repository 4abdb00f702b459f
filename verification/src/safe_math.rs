//! Checked fixed-point arithmetic.
//!
//! Amounts are `u64`; fractions are integers scaled by [`WAD`]. Every
//! operation either returns the exact mathematical value or names the reason
//! why it could not. Products are formed in 128 bits, so that only the final
//! narrowing can fail.
//!
//! The library holds no floating-point code. The two transcendental
//! primitives behind fractional powers, a scaled logarithm and a scaled
//! exponential, are handed in by the caller as functions on integers.

use vstd::prelude::*;
use vstd::arithmetic::power::{pow, lemma_pow0, lemma_pow_increases, lemma0_pow, lemma1_pow};
use crate::error::SafeMathError;

verus! {

/// Scale of fixed-point fractions: the integer that stands for 1.
pub const WAD: u64 = 1_000_000_000;

/// Magnitude at which [`exp_wad`] stops asking for an exponential: 43 in [`WAD`] scale.
pub const EXP_WAD_LIMIT: i128 = 43_000_000_000;

/// Relative increment, in [`WAD`] scale, by which [`pow_wad_up`] raises a power.
pub const POW_UP_INCREMENT: u64 = 1_000;

/// `floor(x * y / z)` narrowed to 64 bits.
pub open spec fn mul_div_spec(x: int, y: int, z: int) -> Result<u64, SafeMathError> {
    if z == 0 {
        Err(SafeMathError::DivisionUnderflow)
    } else if (x * y) / z > u64::MAX {
        Err(SafeMathError::ConversionOverflow)
    } else {
        Ok(((x * y) / z) as u64)
    }
}

/// `floor((x * y + z - 1) / z)`, the quotient rounded up, narrowed to 64 bits.
pub open spec fn mul_div_up_spec(x: int, y: int, z: int) -> Result<u64, SafeMathError> {
    if z == 0 {
        Err(SafeMathError::DivisionUnderflow)
    } else if (x * y + z - 1) / z > u64::MAX {
        Err(SafeMathError::ConversionOverflow)
    } else {
        Ok(((x * y + z - 1) / z) as u64)
    }
}

/// The product of two 64-bit values, and a 64-bit value added to it, fit in 128 bits.
pub proof fn lemma_product_fits(x: u64, y: u64)
    ensures
        0 <= x * y,
        x * y + u64::MAX <= u128::MAX,
{
    assert(0 <= x * y && x * y <= 0xffff_ffff_ffff_ffff * 0xffff_ffff_ffff_ffff)
        by (nonlinear_arith)
        requires
            0 <= x <= 0xffff_ffff_ffff_ffff,
            0 <= y <= 0xffff_ffff_ffff_ffff,
    ;
}

/// `(x * y) / WAD`, rounded down.
pub fn mul_wad(x: u64, y: u64) -> (r: Result<u64, SafeMathError>)
    ensures
        r == mul_div_spec(x as int, y as int, WAD as int),
{
    mul_div(x, y, WAD)
}

/// `(x * y) / WAD`, rounded up.
pub fn mul_wad_up(x: u64, y: u64) -> (r: Result<u64, SafeMathError>)
    ensures
        r == mul_div_up_spec(x as int, y as int, WAD as int),
{
    mul_div_up(x, y, WAD)
}

/// `x / y`, rounded down; division by zero is an error.
pub fn div(x: u64, y: u64) -> (r: Result<u64, SafeMathError>)
    ensures
        r == (if y == 0 {
            Err(SafeMathError::DivisionUnderflow)
        } else {
            Ok((x as int / y as int) as u64)
        }),
{
    if y == 0 {
        Err(SafeMathError::DivisionUnderflow)
    } else {
        Ok(x / y)
    }
}

/// `x * y`, or an error where the product leaves 64 bits.
pub fn mul(x: u64, y: u64) -> (r: Result<u64, SafeMathError>)
    ensures
        r == (if x * y > u64::MAX {
            Err(SafeMathError::MultiplicationOverflow)
        } else {
            Ok((x * y) as u64)
        }),
{
    match x.checked_mul(y) {
        Some(z) => Ok(z),
        None => Err(SafeMathError::MultiplicationOverflow),
    }
}

/// `(x * WAD) / y`, rounded down.
pub fn div_wad(x: u64, y: u64) -> (r: Result<u64, SafeMathError>)
    ensures
        r == mul_div_spec(x as int, WAD as int, y as int),
{
    mul_div(x, WAD, y)
}

/// `(x * WAD) / y`, rounded up.
pub fn div_wad_up(x: u64, y: u64) -> (r: Result<u64, SafeMathError>)
    ensures
        r == mul_div_up_spec(x as int, WAD as int, y as int),
{
    mul_div_up(x, WAD, y)
}

/// `x + y`, or an error where the sum leaves 64 bits.
pub fn safe_add(x: u64, y: u64) -> (r: Result<u64, SafeMathError>)
    ensures
        r == (if x + y > u64::MAX {
            Err(SafeMathError::AdditionOverflow)
        } else {
            Ok((x + y) as u64)
        }),
{
    match x.checked_add(y) {
        Some(z) => Ok(z),
        None => Err(SafeMathError::AdditionOverflow),
    }
}

/// `x - y`, or an error where `y` exceeds `x`.
pub fn safe_sub(x: u64, y: u64) -> (r: Result<u64, SafeMathError>)
    ensures
        r == (if x < y {
            Err(SafeMathError::SubtractionUnderflow)
        } else {
            Ok((x - y) as u64)
        }),
{
    match x.checked_sub(y) {
        Some(z) => Ok(z),
        None => Err(SafeMathError::SubtractionUnderflow),
    }
}

/// `(x * y) / z`, rounded down, with the product formed in 128 bits.
pub fn mul_div(x: u64, y: u64, z: u64) -> (r: Result<u64, SafeMathError>)
    ensures
        r == mul_div_spec(x as int, y as int, z as int),
{
    if z == 0 {
        return Err(SafeMathError::DivisionUnderflow);
    }
    proof {
        lemma_product_fits(x, y);
    }
    let xy: u128 = (x as u128) * (y as u128);
    let q: u128 = xy / (z as u128);
    if q > u64::MAX as u128 {
        Err(SafeMathError::ConversionOverflow)
    } else {
        Ok(q as u64)
    }
}

/// `(x * y) / z`, rounded up, with the product formed in 128 bits.
pub fn mul_div_up(x: u64, y: u64, z: u64) -> (r: Result<u64, SafeMathError>)
    ensures
        r == mul_div_up_spec(x as int, y as int, z as int),
{
    if z == 0 {
        return Err(SafeMathError::DivisionUnderflow);
    }
    proof {
        lemma_product_fits(x, y);
    }
    let xy: u128 = (x as u128) * (y as u128);
    let q: u128 = (xy + ((z - 1) as u128)) / (z as u128);
    if q > u64::MAX as u128 {
        Err(SafeMathError::ConversionOverflow)
    } else {
        Ok(q as u64)
    }
}

/// `x` to the power `y`, or an error where the power leaves 64 bits.
pub fn safe_pow(x: u64, y: u32) -> (r: Result<u64, SafeMathError>)
    ensures
        r == (if pow(x as int, y as nat) > u64::MAX {
            Err(SafeMathError::ExponentiationOverflow)
        } else {
            Ok(pow(x as int, y as nat) as u64)
        }),
{
    if y == 0 {
        proof {
            lemma_pow0(x as int);
        }
        return Ok(1);
    }
    if x == 0 {
        proof {
            lemma0_pow(y as nat);
        }
        return Ok(0);
    }
    if x == 1 {
        proof {
            lemma1_pow(y as nat);
        }
        return Ok(1);
    }
    let mut acc: u64 = 1;
    let mut i: u32 = 0;
    proof {
        lemma_pow0(x as int);
    }
    while i < y
        invariant
            x >= 2,
            i <= y,
            acc == pow(x as int, i as nat),
        decreases y - i,
    {
        proof {
            reveal(pow);
            assert(pow(x as int, (i + 1) as nat) == x * pow(x as int, i as nat));
            assert(x * acc == acc * x) by (nonlinear_arith);
        }
        match acc.checked_mul(x) {
            Some(next) => {
                acc = next;
            },
            None => {
                proof {
                    lemma_pow_increases(x as nat, (i + 1) as nat, y as nat);
                }
                return Err(SafeMathError::ExponentiationOverflow);
            },
        }
        i = i + 1;
    }
    Ok(acc)
}

/// Quotient of `a` by a positive `b`, rounded toward zero.
pub open spec fn div_toward_zero(a: int, b: int) -> int
    recommends
        b > 0,
{
    if a >= 0 {
        a / b
    } else {
        -((-a) / b)
    }
}

/// Whether `ln` may be asked for the scaled logarithm of every positive value.
pub open spec fn ln_ready<L: Fn(i64) -> i128>(ln: &L) -> bool {
    forall|v: i64| v > 0 ==> call_requires(ln, (v,))
}

/// Whether `exp` may be asked for the scaled exponential of every value
/// strictly between the two limits.
pub open spec fn exp_ready<E: Fn(i128) -> i128>(exp: &E) -> bool {
    forall|v: i128| -EXP_WAD_LIMIT < v < EXP_WAD_LIMIT ==> call_requires(exp, (v,))
}

/// What [`exp_wad`] makes of the answer `e` of the exponential primitive:
/// the answer itself where it fits in 64 bits.
pub open spec fn exp_wad_checked_spec(e: int) -> Result<i64, SafeMathError> {
    if e > i64::MAX || e < i64::MIN {
        Err(SafeMathError::ExponentiationOverflow)
    } else {
        Ok(e as i64)
    }
}

/// Whether [`exp_wad`] asks the exponential primitive at `x`.
pub open spec fn exp_wad_asks(x: int) -> bool {
    -EXP_WAD_LIMIT < x < EXP_WAD_LIMIT
}

/// Result of [`exp_wad`] at `x` where the exponential primitive, if asked, answered `e`.
pub open spec fn exp_wad_spec(x: int, e: int) -> Result<i64, SafeMathError> {
    if x >= EXP_WAD_LIMIT {
        Err(SafeMathError::ExponentiationOverflow)
    } else if x <= -EXP_WAD_LIMIT {
        Ok(0)
    } else {
        exp_wad_checked_spec(e)
    }
}

/// Exponent that [`pow_wad`] hands to [`exp_wad`] for the logarithm `l` of
/// the base and the power `y`.
pub open spec fn pow_wad_exponent(l: int, y: int) -> int {
    div_toward_zero(l * y, WAD as int)
}

/// Whether [`pow_wad`] gets as far as the exponential primitive.
pub open spec fn pow_wad_asks_exp(x: int, y: int, l: int) -> bool {
    &&& x > 0
    &&& i128::MIN <= l * y <= i128::MAX
    &&& exp_wad_asks(pow_wad_exponent(l, y))
}

/// Result of [`pow_wad`] where the logarithm primitive answered `l` and the
/// exponential primitive answered `e`.
pub open spec fn pow_wad_spec(x: int, y: int, l: int, e: int) -> Result<i64, SafeMathError> {
    if x <= 0 {
        Err(SafeMathError::LogarithmUndefined)
    } else if l * y > i128::MAX || l * y < i128::MIN {
        Err(SafeMathError::MultiplicationOverflow)
    } else {
        exp_wad_spec(pow_wad_exponent(l, y), e)
    }
}

/// Whether `l` and `e` are answers that the two primitives may have given in
/// a run of [`pow_wad`] on `x` and `y`: `l` for the logarithm of `x`, and
/// `e` for the exponential of the exponent that follows from `l`. Nothing is
/// said of a primitive that the run does not reach.
pub open spec fn pow_wad_answers<L: Fn(i64) -> i128, E: Fn(i128) -> i128>(
    ln: &L,
    exp: &E,
    x: int,
    y: int,
    l: i128,
    e: i128,
) -> bool {
    &&& x > 0 ==> call_ensures(ln, (x as i64,), l)
    &&& pow_wad_asks_exp(x, y, l as int) ==> call_ensures(
        exp,
        (pow_wad_exponent(l as int, y) as i128,),
        e,
    )
}

/// Narrows the answer of the exponential primitive to 64 bits.
pub fn exp_wad_checked(e: i128) -> (r: Result<i64, SafeMathError>)
    ensures
        r == exp_wad_checked_spec(e as int),
{
    if e > i64::MAX as i128 || e < i64::MIN as i128 {
        Err(SafeMathError::ExponentiationOverflow)
    } else {
        Ok(e as i64)
    }
}

/// Natural logarithm of `x`, both in [`WAD`] scale, as `ln` approximates it.
/// Undefined for `x <= 0`.
pub fn ln_wad<L: Fn(i64) -> i128>(x: i64, ln: &L) -> (r: Result<i128, SafeMathError>)
    requires
        ln_ready(ln),
    ensures
        x <= 0 ==> r == Err::<i128, SafeMathError>(SafeMathError::LogarithmUndefined),
        x > 0 ==> r.is_ok() && call_ensures(ln, (x,), r.unwrap()),
{
    if x <= 0 {
        return Err(SafeMathError::LogarithmUndefined);
    }
    Ok(ln(x))
}

/// Exponential of `x`, both in [`WAD`] scale, as `exp` approximates it. At
/// or above the limit it overflows; at or below the negated limit it is 0;
/// in between it is the primitive's answer, which must fit in 64 bits.
pub fn exp_wad<E: Fn(i128) -> i128>(x: i128, exp: &E) -> (r: Result<i64, SafeMathError>)
    requires
        exp_ready(exp),
    ensures
        !exp_wad_asks(x as int) ==> r == exp_wad_spec(x as int, 0),
        exp_wad_asks(x as int) ==> exists|e: i128| #[trigger]
            call_ensures(exp, (x,), e) && r == exp_wad_spec(x as int, e as int),
{
    if x >= EXP_WAD_LIMIT {
        return Err(SafeMathError::ExponentiationOverflow);
    }
    if x <= -EXP_WAD_LIMIT {
        return Ok(0);
    }
    let e = exp(x);
    exp_wad_checked(e)
}

/// Product of a logarithm and a power, divided by [`WAD`] toward zero: the
/// exponent of the power in [`WAD`] scale.
pub fn scale_exponent(l: i128, y: i64) -> (r: Result<i128, SafeMathError>)
    ensures
        r == (if l * y > i128::MAX || l * y < i128::MIN {
            Err::<i128, SafeMathError>(SafeMathError::MultiplicationOverflow)
        } else {
            Ok(pow_wad_exponent(l as int, y as int) as i128)
        }),
{
    match l.checked_mul(y as i128) {
        None => Err(SafeMathError::MultiplicationOverflow),
        Some(p) => {
            if p >= 0 {
                Ok(p / (WAD as i128))
            } else if p == i128::MIN {
                Ok(-((i128::MAX / (WAD as i128))))
            } else {
                Ok(-((-p) / (WAD as i128)))
            }
        },
    }
}

/// `x` to the power `y`, all in [`WAD`] scale: the exponential of the
/// logarithm of `x` times `y`.
pub fn pow_wad<L: Fn(i64) -> i128, E: Fn(i128) -> i128>(x: i64, y: i64, ln: &L, exp: &E) -> (r:
    Result<i64, SafeMathError>)
    requires
        ln_ready(ln),
        exp_ready(exp),
    ensures
        exists|l: i128, e: i128| #[trigger]
            pow_wad_answers(ln, exp, x as int, y as int, l, e) && r == pow_wad_spec(
                x as int,
                y as int,
                l as int,
                e as int,
            ),
{
    let l = match ln_wad(x, ln) {
        Ok(l) => l,
        Err(err) => {
            assert(pow_wad_answers(ln, exp, x as int, y as int, 0, 0));
            return Err(err);
        },
    };
    let t = match scale_exponent(l, y) {
        Ok(t) => t,
        Err(err) => {
            assert(pow_wad_answers(ln, exp, x as int, y as int, l, 0));
            return Err(err);
        },
    };
    let r = exp_wad(t, exp);
    proof {
        if exp_wad_asks(t as int) {
            let e = choose|e: i128| #[trigger]
                call_ensures(exp, (t,), e) && r == exp_wad_spec(t as int, e as int);
            assert(pow_wad_answers(ln, exp, x as int, y as int, l, e));
        } else {
            assert(pow_wad_answers(ln, exp, x as int, y as int, l, 0));
        }
    }
    r
}

/// What [`pow_wad_up`] makes of a power: the power, raised by its
/// [`POW_UP_INCREMENT`] part rounded up, and by one more.
pub open spec fn round_power_up_spec(power: int) -> Result<u64, SafeMathError> {
    if power < 0 {
        Err(SafeMathError::ConversionOverflow)
    } else {
        let raised = power + (power * POW_UP_INCREMENT + WAD - 1) / (WAD as int) + 1;
        if raised > u64::MAX {
            Err(SafeMathError::AdditionOverflow)
        } else {
            Ok(raised as u64)
        }
    }
}

/// Result of [`pow_wad_up`] where the logarithm primitive answered `l` and
/// the exponential primitive answered `e`. A base of zero, or one beyond the
/// signed range, has no logarithm, whatever the exponent is; an exponent
/// beyond the signed range is refused after that.
pub open spec fn pow_wad_up_spec(x: int, y: int, l: int, e: int) -> Result<u64, SafeMathError> {
    if x <= 0 || x > i64::MAX {
        Err(SafeMathError::LogarithmUndefined)
    } else if y > i64::MAX {
        Err(SafeMathError::ConversionOverflow)
    } else {
        match pow_wad_spec(x, y, l, e) {
            Err(err) => Err(err),
            Ok(power) => round_power_up_spec(power as int),
        }
    }
}

/// Whether `l` and `e` are answers that the two primitives may have given in
/// a run of [`pow_wad_up`] on `x` and `y`.
pub open spec fn pow_wad_up_answers<L: Fn(i64) -> i128, E: Fn(i128) -> i128>(
    ln: &L,
    exp: &E,
    x: int,
    y: int,
    l: i128,
    e: i128,
) -> bool {
    0 < x <= i64::MAX && y <= i64::MAX ==> pow_wad_answers(ln, exp, x, y, l, e)
}

/// Raises a power so that rounding in the primitives cannot leave it too low.
pub fn round_power_up(power: i64) -> (r: Result<u64, SafeMathError>)
    ensures
        r == round_power_up_spec(power as int),
        power >= 0 ==> r.is_ok(),
        r matches Ok(raised) ==> raised > power,
{
    if power < 0 {
        return Err(SafeMathError::ConversionOverflow);
    }
    let power_u64 = power as u64;
    let increment = mul_wad_up(power_u64, POW_UP_INCREMENT)?;
    assert(increment <= power_u64) by (nonlinear_arith)
        requires
            increment == (power_u64 * 1000 + 1_000_000_000 - 1) / 1_000_000_000,
    ;
    Ok(power_u64 + increment + 1)
}

/// [`pow_wad`] on unsigned arguments, rounded up.
pub fn pow_wad_up<L: Fn(i64) -> i128, E: Fn(i128) -> i128>(x: u64, y: u64, ln: &L, exp: &E) -> (r:
    Result<u64, SafeMathError>)
    requires
        ln_ready(ln),
        exp_ready(exp),
    ensures
        exists|l: i128, e: i128| #[trigger]
            pow_wad_up_answers(ln, exp, x as int, y as int, l, e) && r == pow_wad_up_spec(
                x as int,
                y as int,
                l as int,
                e as int,
            ),
{
    if x == 0 || x > i64::MAX as u64 {
        assert(pow_wad_up_answers(ln, exp, x as int, y as int, 0, 0));
        return Err(SafeMathError::LogarithmUndefined);
    }
    if y > i64::MAX as u64 {
        assert(pow_wad_up_answers(ln, exp, x as int, y as int, 0, 0));
        return Err(SafeMathError::ConversionOverflow);
    }
    let p = pow_wad(x as i64, y as i64, ln, exp);
    proof {
        let (l, e) = choose|l: i128, e: i128| #[trigger]
            pow_wad_answers(ln, exp, x as int, y as int, l, e) && p == pow_wad_spec(
                x as int,
                y as int,
                l as int,
                e as int,
            );
        assert(pow_wad_up_answers(ln, exp, x as int, y as int, l, e));
    }
    match p {
        Err(err) => Err(err),
        Ok(power) => round_power_up(power),
    }
}

} // verus!
