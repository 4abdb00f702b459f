//! The weight curve and the weighted constant-formula bonding curve.
//!
//! A quote needs one fractional power. Its two arguments are fixed by the
//! reserves, the amount and the weights; the power itself comes from the
//! caller's logarithm and exponential primitives (see [`crate::safe_math`]).
//! Each contract below therefore states the result for every pair of answers
//! that the primitives may have given.

use vstd::prelude::*;
use crate::constants::{MAX_FEE_BIPS, MAX_PERCENTAGE_IN, MAX_PERCENTAGE_OUT};
use crate::error::SafeMathError;
use crate::safe_math::{
    div_wad, div_wad_up, mul_div, mul_div_spec, mul_div_up_spec, mul_wad, mul_wad_up, pow_wad_up,
    pow_wad_up_answers, pow_wad_up_spec, safe_add, safe_sub, exp_ready, ln_ready, WAD,
};

verus! {

/// The smaller of two values.
pub open spec fn min_int(a: int, b: int) -> int {
    if a <= b {
        a
    } else {
        b
    }
}

/// The value that moves from `x` at `i == 0` to `y` at `i >= n`, in
/// proportion to `min(i, n) / n`, the moved part rounded down.
pub open spec fn linear_interpolation_spec(
    x: int,
    y: int,
    i: int,
    n: int,
) -> Result<u64, SafeMathError> {
    if n == 0 {
        Err(SafeMathError::DivisionUnderflow)
    } else if x > y {
        Ok((x - ((x - y) * min_int(i, n)) / n) as u64)
    } else {
        Ok((x + ((y - x) * min_int(i, n)) / n) as u64)
    }
}

/// The part of a distance `d` covered after `i` of `n` steps lies within the
/// distance, is nothing at the start and everything at the end.
pub proof fn lemma_covered_part(d: int, i: int, n: int)
    requires
        0 <= d,
        0 <= i <= n,
        0 < n,
    ensures
        0 <= (d * i) / n <= d,
        i == 0 ==> (d * i) / n == 0,
        i == n ==> (d * i) / n == d,
        i < n && d > 0 ==> (d * i) / n < d,
        d * i >= n ==> (d * i) / n >= 1,
        d * i < n ==> (d * i) / n == 0,
{
    assert(0 <= d * i <= d * n) by (nonlinear_arith)
        requires
            0 <= d,
            0 <= i <= n,
    ;
    assert((d * n) / n == d) by (nonlinear_arith)
        requires
            0 < n,
    ;
    assert(0 <= (d * i) / n <= (d * n) / n) by (nonlinear_arith)
        requires
            0 <= d * i <= d * n,
            0 < n,
    ;
    if i == 0 {
        assert(d * i == 0) by (nonlinear_arith)
            requires
                i == 0,
        ;
    }
    if i < n && d > 0 {
        assert(d * i <= d * n - d) by (nonlinear_arith)
            requires
                0 < d,
                0 <= i < n,
        ;
        assert((d * i) / n < d) by (nonlinear_arith)
            requires
                0 <= d * i <= d * n - d,
                0 < d,
                0 < n,
        ;
    }
    if d * i >= n {
        assert((d * i) / n >= 1) by (nonlinear_arith)
            requires
                d * i >= n,
                0 < n,
        ;
    }
    if d * i < n {
        assert((d * i) / n == 0) by (nonlinear_arith)
            requires
                0 <= d * i < n,
        ;
    }
}

/// Weight after `i` of `n` seconds, between the start weight `x` and the end
/// weight `y`. Time past the end counts as the end.
pub fn linear_interpolation(x: u64, y: u64, i: u64, n: u64) -> (r: Result<u64, SafeMathError>)
    ensures
        r == linear_interpolation_spec(x as int, y as int, i as int, n as int),
        n != 0 ==> r.is_ok(),
        r matches Ok(v) ==> {
            &&& i == 0 ==> v == x
            &&& i >= n ==> v == y
            &&& x == y ==> v == x
            &&& 0 < i < n && x > y ==> y < v <= x
            &&& 0 < i < n && x < y ==> x <= v < y
        },
{
    if n == 0 {
        return Err(SafeMathError::DivisionUnderflow);
    }
    proof {
        lemma_linear_interpolation_bounds(x, y, i, n);
    }
    let steps = if i < n {
        i
    } else {
        n
    };
    if x > y {
        let d = x - y;
        proof {
            lemma_covered_part(d as int, steps as int, n as int);
        }
        let part = mul_div(d, steps, n)?;
        Ok(x - part)
    } else {
        let d = y - x;
        proof {
            lemma_covered_part(d as int, steps as int, n as int);
        }
        let part = mul_div(d, steps, n)?;
        Ok(x + part)
    }
}

/// The weight curve starts at `x`, ends at `y`, stays there after the end,
/// and in between lies between the two: on the side of `x` it may still
/// equal `x`, on the side of `y` it is strictly short of `y`. It has left
/// `x` exactly when the distance times the elapsed time has reached the
/// whole duration.
pub proof fn lemma_linear_interpolation_bounds(x: u64, y: u64, i: u64, n: u64)
    requires
        n > 0,
    ensures
        linear_interpolation_spec(x as int, y as int, i as int, n as int).is_ok(),
        ({
            let v = linear_interpolation_spec(x as int, y as int, i as int, n as int).unwrap();
            let d = if x > y {
                x - y
            } else {
                y - x
            };
            &&& i == 0 ==> v == x
            &&& i >= n ==> v == y
            &&& x == y ==> v == x
            &&& 0 < i < n && x > y ==> y < v <= x
            &&& 0 < i < n && x < y ==> x <= v < y
            &&& 0 < i < n && x != y ==> (v != x <==> d * i >= n)
        }),
{
    let d: int = if x > y {
        x - y
    } else {
        y - x
    };
    let steps = min_int(i as int, n as int);
    lemma_covered_part(d, steps, n as int);
}

/// The weight curve moves one way only: as time passes, the weight comes
/// no nearer to where it started.
pub proof fn lemma_linear_interpolation_monotonic(x: u64, y: u64, earlier: u64, later: u64, n: u64)
    requires
        n > 0,
        earlier <= later,
    ensures
        ({
            let before = linear_interpolation_spec(x as int, y as int, earlier as int, n as int);
            let after = linear_interpolation_spec(x as int, y as int, later as int, n as int);
            &&& before.is_ok() && after.is_ok()
            &&& x > y ==> before.unwrap() >= after.unwrap()
            &&& x <= y ==> before.unwrap() <= after.unwrap()
        }),
{
    let d: int = if x > y {
        x - y
    } else {
        y - x
    };
    let s1 = min_int(earlier as int, n as int);
    let s2 = min_int(later as int, n as int);
    lemma_covered_part(d, s1, n as int);
    lemma_covered_part(d, s2, n as int);
    assert((d * s1) / (n as int) <= (d * s2) / (n as int)) by (nonlinear_arith)
        requires
            0 <= d,
            0 <= s1 <= s2,
            0 < n,
    ;
}

/// Base of the power in [`get_amount_out`]: the input reserve over the
/// input reserve with the amount added, rounded up.
pub open spec fn amount_out_base(amount_in: int, reserve_in: int) -> Result<u64, SafeMathError> {
    if reserve_in + amount_in > u64::MAX {
        Err(SafeMathError::AdditionOverflow)
    } else {
        mul_div_up_spec(reserve_in, WAD as int, reserve_in + amount_in)
    }
}

/// The two arguments of the power in [`get_amount_out`], where the run
/// reaches it.
pub open spec fn amount_out_power_args(
    amount_in: int,
    reserve_in: int,
    weight_in: int,
    weight_out: int,
) -> Option<(int, int)> {
    match (amount_out_base(amount_in, reserve_in), mul_div_spec(weight_in, WAD as int, weight_out)) {
        (Ok(base), Ok(exponent)) => Some((base as int, exponent as int)),
        _ => None,
    }
}

/// The amount that leaves a reserve of `reserve_out` where the power came
/// out as `power`: the reserve times what the power leaves of one.
pub open spec fn amount_out_from_power_spec(
    reserve_out: int,
    power: int,
) -> Result<u64, SafeMathError> {
    if power > WAD {
        Err(SafeMathError::SubtractionUnderflow)
    } else {
        mul_div_spec(reserve_out, WAD - power, WAD as int)
    }
}

/// Result of the curve for an exact input, where the primitives answered
/// `l` and `e`.
pub open spec fn curve_amount_out_spec(
    amount_in: int,
    reserve_in: int,
    reserve_out: int,
    weight_in: int,
    weight_out: int,
    l: int,
    e: int,
) -> Result<u64, SafeMathError> {
    match amount_out_base(amount_in, reserve_in) {
        Err(err) => Err(err),
        Ok(base) => match mul_div_spec(weight_in, WAD as int, weight_out) {
            Err(err) => Err(err),
            Ok(exponent) => match pow_wad_up_spec(base as int, exponent as int, l, e) {
                Err(err) => Err(err),
                Ok(power) => amount_out_from_power_spec(reserve_out, power as int),
            },
        },
    }
}

/// Whether an input may enter the curve: at most [`MAX_PERCENTAGE_IN`] of
/// the input reserve.
pub open spec fn amount_in_within_limit(amount_in: int, reserve_in: int) -> bool {
    amount_in <= (reserve_in * MAX_PERCENTAGE_IN) / (MAX_FEE_BIPS as int)
}

/// Result of [`get_amount_out`] where the primitives answered `l` and `e`.
pub open spec fn get_amount_out_spec(
    amount_in: int,
    reserve_in: int,
    reserve_out: int,
    weight_in: int,
    weight_out: int,
    l: int,
    e: int,
) -> Result<u64, SafeMathError> {
    if !amount_in_within_limit(amount_in, reserve_in) {
        Err(SafeMathError::AmountInTooLarge)
    } else {
        curve_amount_out_spec(amount_in, reserve_in, reserve_out, weight_in, weight_out, l, e)
    }
}

/// The two arguments of the power that a run of [`get_amount_out`] asks
/// for, where it reaches the power.
pub open spec fn get_amount_out_power_args(
    amount_in: int,
    reserve_in: int,
    weight_in: int,
    weight_out: int,
) -> Option<(int, int)> {
    if !amount_in_within_limit(amount_in, reserve_in) {
        None
    } else {
        amount_out_power_args(amount_in, reserve_in, weight_in, weight_out)
    }
}

/// Base of the power in [`get_amount_in`]: the output reserve over what the
/// amount leaves of it, rounded up.
pub open spec fn amount_in_base(amount_out: int, reserve_out: int) -> Result<u64, SafeMathError> {
    if reserve_out < amount_out {
        Err(SafeMathError::SubtractionUnderflow)
    } else {
        mul_div_up_spec(reserve_out, WAD as int, reserve_out - amount_out)
    }
}

/// The two arguments of the power in [`get_amount_in`], where the run
/// reaches it.
pub open spec fn amount_in_power_args(
    amount_out: int,
    reserve_out: int,
    weight_in: int,
    weight_out: int,
) -> Option<(int, int)> {
    match (
        amount_in_base(amount_out, reserve_out),
        mul_div_up_spec(weight_out, WAD as int, weight_in),
    ) {
        (Ok(base), Ok(exponent)) => Some((base as int, exponent as int)),
        _ => None,
    }
}

/// The amount that a reserve of `reserve_in` asks for where the power came
/// out as `power`: the reserve times what the power holds beyond one,
/// rounded up.
pub open spec fn amount_in_from_power_spec(
    reserve_in: int,
    power: int,
) -> Result<u64, SafeMathError> {
    if power < WAD {
        Err(SafeMathError::SubtractionUnderflow)
    } else {
        mul_div_up_spec(reserve_in, power - WAD, WAD as int)
    }
}

/// Result of the curve for an exact output, where the primitives answered
/// `l` and `e`.
pub open spec fn curve_amount_in_spec(
    amount_out: int,
    reserve_in: int,
    reserve_out: int,
    weight_in: int,
    weight_out: int,
    l: int,
    e: int,
) -> Result<u64, SafeMathError> {
    match amount_in_base(amount_out, reserve_out) {
        Err(err) => Err(err),
        Ok(base) => match mul_div_up_spec(weight_out, WAD as int, weight_in) {
            Err(err) => Err(err),
            Ok(exponent) => match pow_wad_up_spec(base as int, exponent as int, l, e) {
                Err(err) => Err(err),
                Ok(power) => amount_in_from_power_spec(reserve_in, power as int),
            },
        },
    }
}

/// Whether an output may be asked of the curve: at most
/// [`MAX_PERCENTAGE_OUT`] of the output reserve.
pub open spec fn amount_out_within_limit(amount_out: int, reserve_out: int) -> bool {
    amount_out <= (reserve_out * MAX_PERCENTAGE_OUT) / (MAX_FEE_BIPS as int)
}

/// Result of [`get_amount_in`] where the primitives answered `l` and `e`.
pub open spec fn get_amount_in_spec(
    amount_out: int,
    reserve_in: int,
    reserve_out: int,
    weight_in: int,
    weight_out: int,
    l: int,
    e: int,
) -> Result<u64, SafeMathError> {
    if !amount_out_within_limit(amount_out, reserve_out) {
        Err(SafeMathError::AmountOutTooLarge)
    } else {
        curve_amount_in_spec(amount_out, reserve_in, reserve_out, weight_in, weight_out, l, e)
    }
}

/// The two arguments of the power that a run of [`get_amount_in`] asks for,
/// where it reaches the power.
pub open spec fn get_amount_in_power_args(
    amount_out: int,
    reserve_out: int,
    weight_in: int,
    weight_out: int,
) -> Option<(int, int)> {
    if !amount_out_within_limit(amount_out, reserve_out) {
        None
    } else {
        amount_in_power_args(amount_out, reserve_out, weight_in, weight_out)
    }
}

/// Whether `l` and `e` are answers that the two primitives may have given in
/// a run that asks for the power with the arguments `args`, or for none.
pub open spec fn power_answers<L: Fn(i64) -> i128, E: Fn(i128) -> i128>(
    ln: &L,
    exp: &E,
    args: Option<(int, int)>,
    l: i128,
    e: i128,
) -> bool {
    match args {
        Some((x, y)) => pow_wad_up_answers(ln, exp, x, y, l, e),
        None => true,
    }
}

/// The amount that leaves a reserve, from the power.
pub fn amount_out_from_power(reserve_out: u64, power: u64) -> (r: Result<u64, SafeMathError>)
    ensures
        r == amount_out_from_power_spec(reserve_out as int, power as int),
        r matches Ok(v) ==> v <= reserve_out,
{
    let rest = safe_sub(WAD, power)?;
    let r = mul_wad(reserve_out, rest);
    proof {
        assert((reserve_out * rest) / (WAD as int) <= reserve_out) by (nonlinear_arith)
            requires
                0 <= rest <= WAD,
                WAD == 1_000_000_000,
                0 <= reserve_out,
        ;
    }
    r
}

/// The amount that a reserve asks for, from the power.
pub fn amount_in_from_power(reserve_in: u64, power: u64) -> (r: Result<u64, SafeMathError>)
    ensures
        r == amount_in_from_power_spec(reserve_in as int, power as int),
{
    let excess = safe_sub(power, WAD)?;
    mul_wad_up(reserve_in, excess)
}

/// A higher power never lets more leave the reserve: rounding the power up
/// is rounding the output down.
pub proof fn lemma_amount_out_falls_with_power(reserve_out: u64, lower: u64, higher: u64)
    requires
        lower <= higher <= WAD,
    ensures
        amount_out_from_power_spec(reserve_out as int, lower as int).is_ok(),
        amount_out_from_power_spec(reserve_out as int, higher as int).is_ok(),
        amount_out_from_power_spec(reserve_out as int, higher as int).unwrap()
            <= amount_out_from_power_spec(reserve_out as int, lower as int).unwrap(),
{
    let r = reserve_out as int;
    let a = WAD - higher;
    let b = WAD - lower;
    assert(0 <= (r * a) / 1_000_000_000 <= (r * b) / 1_000_000_000 <= r) by (nonlinear_arith)
        requires
            0 <= r,
            0 <= a <= b <= 1_000_000_000,
    ;
}

/// A higher power never asks less of the taker: rounding the power up is
/// rounding the input up.
pub proof fn lemma_amount_in_rises_with_power(reserve_in: u64, lower: u64, higher: u64)
    requires
        WAD <= lower <= higher,
        amount_in_from_power_spec(reserve_in as int, higher as int).is_ok(),
    ensures
        amount_in_from_power_spec(reserve_in as int, lower as int).is_ok(),
        amount_in_from_power_spec(reserve_in as int, lower as int).unwrap()
            <= amount_in_from_power_spec(reserve_in as int, higher as int).unwrap(),
{
    let r = reserve_in as int;
    let a = lower - WAD;
    let b = higher - WAD;
    assert(0 <= (r * a + 1_000_000_000 - 1) / 1_000_000_000 <= (r * b + 1_000_000_000 - 1)
        / 1_000_000_000) by (nonlinear_arith)
        requires
            0 <= r,
            0 <= a <= b,
    ;
}

/// A power that is no less than the input reserve with an amount added,
/// over the input reserve, asks for no less than that amount.
pub proof fn lemma_amount_in_covers(reserve_in: u64, amount: u64, power: u64)
    requires
        power * reserve_in >= WAD * (reserve_in + amount),
        amount_in_from_power_spec(reserve_in as int, power as int).is_ok(),
    ensures
        amount_in_from_power_spec(reserve_in as int, power as int).unwrap() >= amount,
{
    let r = reserve_in as int;
    let p = power as int;
    let a = amount as int;
    assert((r * (p - 1_000_000_000) + 1_000_000_000 - 1) / 1_000_000_000 >= a)
        by (nonlinear_arith)
        requires
            p * r >= 1_000_000_000 * (r + a),
            0 <= a,
            0 <= r,
            p >= 1_000_000_000,
    ;
}

/// A power that is no less than the input reserve over the input reserve
/// with the amount added lets no more leave than the constant product
/// gives: `reserve_out * amount_in / (reserve_in + amount_in)`.
pub proof fn lemma_amount_out_within_constant_product(
    reserve_in: u64,
    reserve_out: u64,
    amount_in: u64,
    power: u64,
)
    requires
        reserve_in + amount_in > 0,
        power <= WAD,
        power * (reserve_in + amount_in) >= WAD * reserve_in,
    ensures
        amount_out_from_power_spec(reserve_out as int, power as int).is_ok(),
        amount_out_from_power_spec(reserve_out as int, power as int).unwrap() <= (reserve_out
            * amount_in) / (reserve_in + amount_in),
{
    let rest = WAD - power;
    let sum = reserve_in + amount_in;
    let out = reserve_out as int;
    let a = amount_in as int;
    assert(rest * sum <= 1_000_000_000 * a) by (nonlinear_arith)
        requires
            rest == 1_000_000_000 - power,
            sum == reserve_in + a,
            power * sum >= 1_000_000_000 * reserve_in,
    ;
    assert((out * rest) * sum <= (out * a) * 1_000_000_000) by (nonlinear_arith)
        requires
            rest * sum <= 1_000_000_000 * a,
            0 <= out,
    ;
    assert(0 <= (out * rest) / 1_000_000_000 <= out) by (nonlinear_arith)
        requires
            0 <= out,
            0 <= rest <= 1_000_000_000,
    ;
    lemma_cross_quotients(out * rest, 1_000_000_000, out * a, sum);
}

/// Of two fractions, the one that is no greater has the quotient that is
/// no greater.
pub proof fn lemma_cross_quotients(a: int, b: int, c: int, d: int)
    requires
        0 <= a,
        0 <= c,
        0 < b,
        0 < d,
        a * d <= c * b,
    ensures
        a / b <= c / d,
{
    let q = a / b;
    assert(q * b <= a && 0 <= q) by (nonlinear_arith)
        requires
            q == a / b,
            0 <= a,
            0 < b,
    ;
    assert(q * b * d <= c * b) by (nonlinear_arith)
        requires
            q * b <= a,
            a * d <= c * b,
            0 < d,
    ;
    assert(q * d <= c) by (nonlinear_arith)
        requires
            q * b * d <= c * b,
            0 < b,
    ;
    assert(q <= c / d) by (nonlinear_arith)
        requires
            q * d <= c,
            0 < d,
    ;
}

/// The curve for an exact input, without the limit on the input.
pub fn _get_amount_out<L: Fn(i64) -> i128, E: Fn(i128) -> i128>(
    amount_in: u64,
    reserve_in: u64,
    reserve_out: u64,
    weight_in: u64,
    weight_out: u64,
    ln: &L,
    exp: &E,
) -> (r: Result<u64, SafeMathError>)
    requires
        ln_ready(ln),
        exp_ready(exp),
    ensures
        exists|l: i128, e: i128| #[trigger]
            power_answers(
                ln,
                exp,
                amount_out_power_args(
                    amount_in as int,
                    reserve_in as int,
                    weight_in as int,
                    weight_out as int,
                ),
                l,
                e,
            ) && r == curve_amount_out_spec(
                amount_in as int,
                reserve_in as int,
                reserve_out as int,
                weight_in as int,
                weight_out as int,
                l as int,
                e as int,
            ),
        r matches Ok(v) ==> v <= reserve_out,
{
    let ghost args = amount_out_power_args(
        amount_in as int,
        reserve_in as int,
        weight_in as int,
        weight_out as int,
    );
    let sum = match safe_add(reserve_in, amount_in) {
        Ok(v) => v,
        Err(err) => {
            assert(power_answers(ln, exp, args, 0, 0));
            return Err(err);
        },
    };
    let base = match div_wad_up(reserve_in, sum) {
        Ok(v) => v,
        Err(err) => {
            assert(power_answers(ln, exp, args, 0, 0));
            return Err(err);
        },
    };
    let exponent = match div_wad(weight_in, weight_out) {
        Ok(v) => v,
        Err(err) => {
            assert(power_answers(ln, exp, args, 0, 0));
            return Err(err);
        },
    };
    let p = pow_wad_up(base, exponent, ln, exp);
    proof {
        let (l, e) = choose|l: i128, e: i128| #[trigger]
            pow_wad_up_answers(ln, exp, base as int, exponent as int, l, e) && p
                == pow_wad_up_spec(base as int, exponent as int, l as int, e as int);
        assert(power_answers(ln, exp, args, l, e));
    }
    match p {
        Err(err) => Err(err),
        Ok(power) => amount_out_from_power(reserve_out, power),
    }
}

/// The curve for an exact output, without the limit on the output.
pub fn _get_amount_in<L: Fn(i64) -> i128, E: Fn(i128) -> i128>(
    amount_out: u64,
    reserve_in: u64,
    reserve_out: u64,
    weight_in: u64,
    weight_out: u64,
    ln: &L,
    exp: &E,
) -> (r: Result<u64, SafeMathError>)
    requires
        ln_ready(ln),
        exp_ready(exp),
    ensures
        exists|l: i128, e: i128| #[trigger]
            power_answers(
                ln,
                exp,
                amount_in_power_args(
                    amount_out as int,
                    reserve_out as int,
                    weight_in as int,
                    weight_out as int,
                ),
                l,
                e,
            ) && r == curve_amount_in_spec(
                amount_out as int,
                reserve_in as int,
                reserve_out as int,
                weight_in as int,
                weight_out as int,
                l as int,
                e as int,
            ),
{
    let ghost args = amount_in_power_args(
        amount_out as int,
        reserve_out as int,
        weight_in as int,
        weight_out as int,
    );
    let rest = match safe_sub(reserve_out, amount_out) {
        Ok(v) => v,
        Err(err) => {
            assert(power_answers(ln, exp, args, 0, 0));
            return Err(err);
        },
    };
    let base = match div_wad_up(reserve_out, rest) {
        Ok(v) => v,
        Err(err) => {
            assert(power_answers(ln, exp, args, 0, 0));
            return Err(err);
        },
    };
    let exponent = match div_wad_up(weight_out, weight_in) {
        Ok(v) => v,
        Err(err) => {
            assert(power_answers(ln, exp, args, 0, 0));
            return Err(err);
        },
    };
    let p = pow_wad_up(base, exponent, ln, exp);
    proof {
        let (l, e) = choose|l: i128, e: i128| #[trigger]
            pow_wad_up_answers(ln, exp, base as int, exponent as int, l, e) && p
                == pow_wad_up_spec(base as int, exponent as int, l as int, e as int);
        assert(power_answers(ln, exp, args, l, e));
    }
    match p {
        Err(err) => Err(err),
        Ok(power) => amount_in_from_power(reserve_in, power),
    }
}

/// Amount of the output asset that an exact `amount_in` of the input asset
/// buys:
/// `reserve_out * (1 - (reserve_in / (reserve_in + amount_in)) ^ (weight_in / weight_out))`,
/// with the power rounded up. An input above the limit is refused.
pub fn get_amount_out<L: Fn(i64) -> i128, E: Fn(i128) -> i128>(
    amount_in: u64,
    reserve_in: u64,
    reserve_out: u64,
    weight_in: u64,
    weight_out: u64,
    ln: &L,
    exp: &E,
) -> (r: Result<u64, SafeMathError>)
    requires
        ln_ready(ln),
        exp_ready(exp),
    ensures
        exists|l: i128, e: i128| #[trigger]
            power_answers(
                ln,
                exp,
                get_amount_out_power_args(
                    amount_in as int,
                    reserve_in as int,
                    weight_in as int,
                    weight_out as int,
                ),
                l,
                e,
            ) && r == get_amount_out_spec(
                amount_in as int,
                reserve_in as int,
                reserve_out as int,
                weight_in as int,
                weight_out as int,
                l as int,
                e as int,
            ),
        r matches Ok(v) ==> v <= reserve_out,
{
    let ghost args = get_amount_out_power_args(
        amount_in as int,
        reserve_in as int,
        weight_in as int,
        weight_out as int,
    );
    let limit = match mul_div(reserve_in, MAX_PERCENTAGE_IN as u64, MAX_FEE_BIPS as u64) {
        Ok(v) => v,
        Err(err) => {
            proof {
                lemma_part_fits(reserve_in as int, MAX_PERCENTAGE_IN as int);
            }
            return Err(err);
        },
    };
    if amount_in > limit {
        assert(power_answers(ln, exp, args, 0, 0));
        return Err(SafeMathError::AmountInTooLarge);
    }
    let r = _get_amount_out(amount_in, reserve_in, reserve_out, weight_in, weight_out, ln, exp);
    proof {
        let inner = amount_out_power_args(
            amount_in as int,
            reserve_in as int,
            weight_in as int,
            weight_out as int,
        );
        let (l, e) = choose|l: i128, e: i128| #[trigger]
            power_answers(ln, exp, inner, l, e) && r == curve_amount_out_spec(
                amount_in as int,
                reserve_in as int,
                reserve_out as int,
                weight_in as int,
                weight_out as int,
                l as int,
                e as int,
            );
        assert(power_answers(ln, exp, args, l, e));
    }
    r
}

/// Amount of the input asset that an exact `amount_out` of the output asset
/// costs:
/// `reserve_in * ((reserve_out / (reserve_out - amount_out)) ^ (weight_out / weight_in) - 1)`,
/// with the power and the product rounded up. An output above the limit is
/// refused.
pub fn get_amount_in<L: Fn(i64) -> i128, E: Fn(i128) -> i128>(
    amount_out: u64,
    reserve_in: u64,
    reserve_out: u64,
    weight_in: u64,
    weight_out: u64,
    ln: &L,
    exp: &E,
) -> (r: Result<u64, SafeMathError>)
    requires
        ln_ready(ln),
        exp_ready(exp),
    ensures
        exists|l: i128, e: i128| #[trigger]
            power_answers(
                ln,
                exp,
                get_amount_in_power_args(
                    amount_out as int,
                    reserve_out as int,
                    weight_in as int,
                    weight_out as int,
                ),
                l,
                e,
            ) && r == get_amount_in_spec(
                amount_out as int,
                reserve_in as int,
                reserve_out as int,
                weight_in as int,
                weight_out as int,
                l as int,
                e as int,
            ),
{
    let ghost args = get_amount_in_power_args(
        amount_out as int,
        reserve_out as int,
        weight_in as int,
        weight_out as int,
    );
    let limit = match mul_div(reserve_out, MAX_PERCENTAGE_OUT as u64, MAX_FEE_BIPS as u64) {
        Ok(v) => v,
        Err(err) => {
            proof {
                lemma_part_fits(reserve_out as int, MAX_PERCENTAGE_OUT as int);
            }
            return Err(err);
        },
    };
    if amount_out > limit {
        assert(power_answers(ln, exp, args, 0, 0));
        return Err(SafeMathError::AmountOutTooLarge);
    }
    let r = _get_amount_in(amount_out, reserve_in, reserve_out, weight_in, weight_out, ln, exp);
    proof {
        let inner = amount_in_power_args(
            amount_out as int,
            reserve_out as int,
            weight_in as int,
            weight_out as int,
        );
        let (l, e) = choose|l: i128, e: i128| #[trigger]
            power_answers(ln, exp, inner, l, e) && r == curve_amount_in_spec(
                amount_out as int,
                reserve_in as int,
                reserve_out as int,
                weight_in as int,
                weight_out as int,
                l as int,
                e as int,
            );
        assert(power_answers(ln, exp, args, l, e));
    }
    r
}

/// A part of a 64-bit amount, given in basis points of at most one whole,
/// fits in 64 bits.
pub proof fn lemma_part_fits(amount: int, bips: int)
    requires
        0 <= amount <= u64::MAX,
        0 <= bips <= MAX_FEE_BIPS,
    ensures
        0 <= (amount * bips) / (MAX_FEE_BIPS as int) <= amount,
{
    assert(0 <= (amount * bips) / 10_000 <= amount) by (nonlinear_arith)
        requires
            0 <= amount,
            0 <= bips <= 10_000,
    ;
}

} // verus!
