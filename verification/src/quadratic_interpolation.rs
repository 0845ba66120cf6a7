//! The parabola through three points, and its integral.
use crate::scalar::{
    can_add, can_divide, can_multiply, can_negate, can_subtract, is_difference, is_number,
    is_opposite, is_product, is_quotient, is_sum, Scalar,
};
use std::ops::Neg;
use vstd::prelude::*;

verus! {

/// `weight` is the weight of the value `f` taken at `x` in the Lagrange
/// form of the parabola whose other two nodes are `y` and `z`:
/// `f / ((x - y) * (x - z))`.
pub open spec fn is_lagrange_weight<T: Scalar>(f: T, x: T, y: T, z: T, weight: T) -> bool {
    exists|first: T, second: T, both: T|
        {
            &&& is_difference(x, y, first)
            &&& is_difference(x, z, second)
            &&& is_product(first, second, both)
            &&& is_quotient(f, both, weight)
        }
}

/// Each operation behind [`is_lagrange_weight`] accepts its operands.
pub open spec fn can_lagrange_weight<T: Scalar>(f: T, x: T, y: T, z: T) -> bool {
    &&& can_subtract(x, y)
    &&& can_subtract(x, z)
    &&& forall|first: T, second: T|
        is_difference(x, y, first) && is_difference(x, z, second) ==> can_multiply(first, second)
    &&& forall|first: T, second: T, both: T|
        {
            &&& is_difference(x, y, first)
            &&& is_difference(x, z, second)
            &&& is_product(first, second, both)
        } ==> can_divide(f, both)
}

/// `term` is `d * (p + q)`.
pub open spec fn is_times_sum<T: Scalar>(d: T, p: T, q: T, term: T) -> bool {
    exists|sum: T| is_sum(p, q, sum) && is_product(d, sum, term)
}

/// Each operation behind [`is_times_sum`] accepts its operands.
pub open spec fn can_times_sum<T: Scalar>(d: T, p: T, q: T) -> bool {
    &&& can_add(p, q)
    &&& forall|sum: T| is_sum(p, q, sum) ==> can_multiply(d, sum)
}

/// `term` is `d * p * q`, multiplied from the left.
pub open spec fn is_times_both<T: Scalar>(d: T, p: T, q: T, term: T) -> bool {
    exists|once: T| is_product(d, p, once) && is_product(once, q, term)
}

/// Each operation behind [`is_times_both`] accepts its operands.
pub open spec fn can_times_both<T: Scalar>(d: T, p: T, q: T) -> bool {
    &&& can_multiply(d, p)
    &&& forall|once: T| is_product(d, p, once) ==> can_multiply(once, q)
}

/// `a` is the coefficient of `x²` for the weights `d`: `d.0 + d.1 + d.2`,
/// added from the left.
pub open spec fn is_leading_coefficient<T: Scalar>(d: (T, T, T), a: T) -> bool {
    exists|two: T| is_sum(d.0, d.1, two) && is_sum(two, d.2, a)
}

/// Each operation behind [`is_leading_coefficient`] accepts its operands.
pub open spec fn can_leading_coefficient<T: Scalar>(d: (T, T, T)) -> bool {
    &&& can_add(d.0, d.1)
    &&& forall|two: T| is_sum(d.0, d.1, two) ==> can_add(two, d.2)
}

/// `b` is the coefficient of `x` for the weights `d` at the nodes `x`:
/// `-(d.0 * (x.1 + x.2)) - d.1 * (x.0 + x.2) - d.2 * (x.0 + x.1)`,
/// subtracted from the left.
pub open spec fn is_linear_coefficient<T: Scalar>(d: (T, T, T), x: (T, T, T), b: T) -> bool {
    exists|first: T, start: T, second: T, two: T, third: T|
        {
            &&& is_times_sum(d.0, x.1, x.2, first)
            &&& is_opposite(first, start)
            &&& is_times_sum(d.1, x.0, x.2, second)
            &&& is_difference(start, second, two)
            &&& is_times_sum(d.2, x.0, x.1, third)
            &&& is_difference(two, third, b)
        }
}

/// Each operation behind [`is_linear_coefficient`] accepts its operands.
pub open spec fn can_linear_coefficient<T: Scalar>(d: (T, T, T), x: (T, T, T)) -> bool {
    &&& can_times_sum(d.0, x.1, x.2)
    &&& can_times_sum(d.1, x.0, x.2)
    &&& can_times_sum(d.2, x.0, x.1)
    &&& forall|first: T| is_times_sum(d.0, x.1, x.2, first) ==> can_negate(first)
    &&& forall|first: T, start: T, second: T|
        {
            &&& is_times_sum(d.0, x.1, x.2, first)
            &&& is_opposite(first, start)
            &&& is_times_sum(d.1, x.0, x.2, second)
        } ==> can_subtract(start, second)
    &&& forall|first: T, start: T, second: T, two: T, third: T|
        {
            &&& is_times_sum(d.0, x.1, x.2, first)
            &&& is_opposite(first, start)
            &&& is_times_sum(d.1, x.0, x.2, second)
            &&& is_difference(start, second, two)
            &&& is_times_sum(d.2, x.0, x.1, third)
        } ==> can_subtract(two, third)
}

/// `c` is the constant coefficient for the weights `d` at the nodes `x`:
/// `d.0 * x.1 * x.2 + d.1 * x.0 * x.2 + d.2 * x.0 * x.1`, added from the
/// left.
pub open spec fn is_constant_coefficient<T: Scalar>(d: (T, T, T), x: (T, T, T), c: T) -> bool {
    exists|first: T, second: T, two: T, third: T|
        {
            &&& is_times_both(d.0, x.1, x.2, first)
            &&& is_times_both(d.1, x.0, x.2, second)
            &&& is_sum(first, second, two)
            &&& is_times_both(d.2, x.0, x.1, third)
            &&& is_sum(two, third, c)
        }
}

/// Each operation behind [`is_constant_coefficient`] accepts its operands.
pub open spec fn can_constant_coefficient<T: Scalar>(d: (T, T, T), x: (T, T, T)) -> bool {
    &&& can_times_both(d.0, x.1, x.2)
    &&& can_times_both(d.1, x.0, x.2)
    &&& can_times_both(d.2, x.0, x.1)
    &&& forall|first: T, second: T|
        is_times_both(d.0, x.1, x.2, first) && is_times_both(d.1, x.0, x.2, second) ==> can_add(
            first,
            second,
        )
    &&& forall|first: T, second: T, two: T, third: T|
        {
            &&& is_times_both(d.0, x.1, x.2, first)
            &&& is_times_both(d.1, x.0, x.2, second)
            &&& is_sum(first, second, two)
            &&& is_times_both(d.2, x.0, x.1, third)
        } ==> can_add(two, third)
}

/// `d` are the three Lagrange weights of the values `f` at the nodes `x`.
pub open spec fn is_lagrange_weights<T: Scalar>(x: (T, T, T), f: (T, T, T), d: (T, T, T)) -> bool {
    &&& is_lagrange_weight(f.0, x.0, x.1, x.2, d.0)
    &&& is_lagrange_weight(f.1, x.1, x.0, x.2, d.1)
    &&& is_lagrange_weight(f.2, x.2, x.0, x.1, d.2)
}

/// `k` are the coefficients `(a, b, c)` of the parabola `a·x² + b·x + c`
/// through the points `(x.0, f.0)`, `(x.1, f.1)` and `(x.2, f.2)`, computed
/// from its Lagrange weights.
pub open spec fn is_interpolation<T: Scalar>(x: (T, T, T), f: (T, T, T), k: (T, T, T)) -> bool {
    exists|d: (T, T, T)|
        {
            &&& #[trigger] is_lagrange_weights(x, f, d)
            &&& is_leading_coefficient(d, k.0)
            &&& is_linear_coefficient(d, x, k.1)
            &&& is_constant_coefficient(d, x, k.2)
        }
}

/// Each operation behind [`is_interpolation`] accepts its operands.
pub open spec fn can_interpolation<T: Scalar>(x: (T, T, T), f: (T, T, T)) -> bool {
    &&& can_lagrange_weight(f.0, x.0, x.1, x.2)
    &&& can_lagrange_weight(f.1, x.1, x.0, x.2)
    &&& can_lagrange_weight(f.2, x.2, x.0, x.1)
    &&& forall|d: (T, T, T)| #[trigger]
        is_lagrange_weights(x, f, d) ==> {
            &&& can_leading_coefficient(d)
            &&& can_linear_coefficient(d, x)
            &&& can_constant_coefficient(d, x)
        }
}

/// `term` is `coefficient / divisor * power`.
pub open spec fn is_power_term<T: Scalar>(coefficient: T, divisor: i32, power: T, term: T) -> bool {
    exists|number: T, share: T|
        {
            &&& is_number(divisor, number)
            &&& is_quotient(coefficient, number, share)
            &&& is_product(share, power, term)
        }
}

/// Each operation behind [`is_power_term`] accepts its operands.
pub open spec fn can_power_term<T: Scalar>(coefficient: T, divisor: i32, power: T) -> bool {
    &&& forall|number: T| is_number(divisor, number) ==> can_divide(coefficient, number)
    &&& forall|number: T, share: T|
        is_number(divisor, number) && is_quotient(coefficient, number, share) ==> can_multiply(
            share,
            power,
        )
}

/// `powers` are the square `x * x` and the cube `x * x * x` of `x`.
pub open spec fn is_powers<T: Scalar>(x: T, powers: (T, T)) -> bool {
    is_product(x, x, powers.0) && is_product(powers.0, x, powers.1)
}

/// `value` is the antiderivative `a/3·x³ + b/2·x² + c·x` of the parabola
/// with the coefficients `k = (a, b, c)`, at `x`, added from the left.
pub open spec fn is_antiderivative<T: Scalar>(k: (T, T, T), x: T, value: T) -> bool {
    exists|powers: (T, T), cubic: T, quadratic: T, two: T, linear: T|
        {
            &&& is_powers(x, powers)
            &&& is_power_term(k.0, 3, powers.1, cubic)
            &&& is_power_term(k.1, 2, powers.0, quadratic)
            &&& is_sum(cubic, quadratic, two)
            &&& is_product(k.2, x, linear)
            &&& is_sum(two, linear, value)
        }
}

/// Each operation behind [`is_antiderivative`] accepts its operands.
pub open spec fn can_antiderivative<T: Scalar>(k: (T, T, T), x: T) -> bool {
    &&& can_multiply(x, x)
    &&& can_multiply(k.2, x)
    &&& forall|square: T| is_product(x, x, square) ==> can_multiply(square, x)
    &&& forall|powers: (T, T)| #[trigger]
        is_powers(x, powers) ==> can_power_term(k.0, 3, powers.1) && can_power_term(
            k.1,
            2,
            powers.0,
        )
    &&& forall|powers: (T, T), cubic: T, quadratic: T|
        {
            &&& #[trigger] is_powers(x, powers)
            &&& #[trigger] is_power_term(k.0, 3, powers.1, cubic)
            &&& #[trigger] is_power_term(k.1, 2, powers.0, quadratic)
        } ==> can_add(cubic, quadratic)
    &&& forall|powers: (T, T), cubic: T, quadratic: T, two: T, linear: T|
        {
            &&& is_powers(x, powers)
            &&& is_power_term(k.0, 3, powers.1, cubic)
            &&& is_power_term(k.1, 2, powers.0, quadratic)
            &&& is_sum(cubic, quadratic, two)
            &&& is_product(k.2, x, linear)
        } ==> can_add(two, linear)
}

/// `integral` is the integral from `lower` to `upper` of the parabola with
/// the coefficients `k`: its antiderivative at `upper` less that at `lower`.
pub open spec fn is_parabola_integral<T: Scalar>(k: (T, T, T), lower: T, upper: T, integral: T) -> bool {
    exists|above: T, below: T|
        {
            &&& #[trigger] is_antiderivative(k, upper, above)
            &&& #[trigger] is_antiderivative(k, lower, below)
            &&& is_difference(above, below, integral)
        }
}

/// Each operation behind [`is_parabola_integral`] accepts its operands.
pub open spec fn can_parabola_integral<T: Scalar>(k: (T, T, T), lower: T, upper: T) -> bool {
    &&& can_antiderivative(k, upper)
    &&& can_antiderivative(k, lower)
    &&& forall|above: T, below: T|
        #[trigger] is_antiderivative(k, upper, above) && #[trigger] is_antiderivative(
            k,
            lower,
            below,
        ) ==> can_subtract(above, below)
}

/// One Lagrange weight, see [`is_lagrange_weight`].
fn lagrange_weight<T: Scalar>(f: T, x: T, y: T, z: T) -> (weight: T)
    requires
        can_lagrange_weight(f, x, y, z),
    ensures
        is_lagrange_weight(f, x, y, z, weight),
{
    let first: T = x - y;
    let second: T = x - z;
    let both: T = first * second;
    f / both
}

/// `d * (p + q)`.
fn times_sum<T: Scalar>(d: T, p: T, q: T) -> (term: T)
    requires
        can_times_sum(d, p, q),
    ensures
        is_times_sum(d, p, q, term),
{
    let sum: T = p + q;
    d * sum
}

/// `d * p * q`.
fn times_both<T: Scalar>(d: T, p: T, q: T) -> (term: T)
    requires
        can_times_both(d, p, q),
    ensures
        is_times_both(d, p, q, term),
{
    let once: T = d * p;
    once * q
}

/// Fits a parabola to three samples of a function and returns its
/// coefficients `(a, b, c)`, highest power first.
///
/// Where two of the points coincide, a division by zero takes place; what
/// comes of it is up to the scalar type.
pub fn quadratic_interpolation_coefficients<T: Scalar>(
    points: (T, T, T),
    function_values: (T, T, T),
) -> (coefficients: (T, T, T))
    requires
        can_interpolation(points, function_values),
    ensures
        is_interpolation(points, function_values, coefficients),
{
    let (x0, x1, x2) = points;
    let (f0, f1, f2) = function_values;
    let d0: T = lagrange_weight(f0, x0, x1, x2);
    let d1: T = lagrange_weight(f1, x1, x0, x2);
    let d2: T = lagrange_weight(f2, x2, x0, x1);
    let ghost d = (d0, d1, d2);
    assert(is_lagrange_weights(points, function_values, d));
    let a: T = d0 + d1 + d2;
    assert(is_leading_coefficient(d, a));
    let first: T = times_sum(d0, x1, x2);
    let start: T = first.neg();
    let second: T = times_sum(d1, x0, x2);
    let two: T = start - second;
    let third: T = times_sum(d2, x0, x1);
    let b: T = two - third;
    assert(is_linear_coefficient(d, points, b));
    let first: T = times_both(d0, x1, x2);
    let second: T = times_both(d1, x0, x2);
    let two: T = first + second;
    let third: T = times_both(d2, x0, x1);
    let c: T = two + third;
    assert(is_constant_coefficient(d, points, c));
    (a, b, c)
}

/// `coefficient / divisor * power`.
fn power_term<T: Scalar>(coefficient: T, divisor: i32, power: T) -> (term: T)
    requires
        can_power_term(coefficient, divisor, power),
    ensures
        is_power_term(coefficient, divisor, power, term),
{
    let number: T = T::from(divisor);
    let share: T = coefficient / number;
    share * power
}

/// The antiderivative of a parabola at one point, see
/// [`is_antiderivative`].
fn antiderivative<T: Scalar>(coefficients: (T, T, T), x: T) -> (value: T)
    requires
        can_antiderivative(coefficients, x),
    ensures
        is_antiderivative(coefficients, x, value),
{
    let (a, b, c) = coefficients;
    let square: T = x * x;
    let cube: T = square * x;
    assert(is_powers(x, (square, cube)));
    let cubic: T = power_term(a, 3, cube);
    let quadratic: T = power_term(b, 2, square);
    let two: T = cubic + quadratic;
    let linear: T = c * x;
    two + linear
}

/// The definite integral of the parabola `a·x² + b·x + c` from
/// `lower_limit` to `upper_limit`, where `coefficients` is `(a, b, c)`.
pub fn quadratic_integral<T: Scalar>(
    coefficients: (T, T, T),
    lower_limit: T,
    upper_limit: T,
) -> (integral: T)
    requires
        can_parabola_integral(coefficients, lower_limit, upper_limit),
    ensures
        is_parabola_integral(coefficients, lower_limit, upper_limit, integral),
{
    let integral_upper: T = antiderivative(coefficients, upper_limit);
    let integral_lower: T = antiderivative(coefficients, lower_limit);
    integral_upper - integral_lower
}

} // verus!
