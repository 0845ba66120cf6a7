//! The differential equation of the harmonic oscillator, `y'' + y = 0`.
use crate::boundary_value_problems::operator_defined_on;
use crate::grid_function::{GridFunction, Samples};
use crate::grid_function_arithmetic::{can_pointwise, is_pointwise};
use crate::numerical_differentiation::{can_central_difference, is_central_difference};
use crate::scalar::{total_arithmetic, Scalar};
use std::ops::Add;
use vstd::prelude::*;

verus! {

/// The sampled function on the grid of `y` with the values `values`.
pub open spec fn on_grid_of<T>(y: Samples<T>, values: Seq<T>) -> Samples<T> {
    Samples { points: y.points, values }
}

/// `residual` are the values of `y'' + y` for the sampled function `y`:
/// the central-difference derivative of the central-difference derivative
/// of `y`, with `y` added to it point by point.
pub open spec fn is_oscillator_residual<T: Scalar>(y: Samples<T>, residual: Seq<T>) -> bool {
    exists|first: Seq<T>, second: Seq<T>|
        {
            &&& #[trigger] is_central_difference(y, first)
            &&& #[trigger] is_central_difference(on_grid_of(y, first), second)
            &&& is_pointwise(<T as Add>::add, second, y.values, residual)
        }
}

/// Each operation behind [`is_oscillator_residual`] accepts its operands.
pub open spec fn can_oscillator_residual<T: Scalar>(y: Samples<T>) -> bool {
    &&& can_central_difference(y)
    &&& forall|first: Seq<T>| #[trigger]
        is_central_difference(y, first) ==> can_central_difference(on_grid_of(y, first))
    &&& forall|first: Seq<T>, second: Seq<T>|
        #[trigger] is_central_difference(y, first) && #[trigger] is_central_difference(
            on_grid_of(y, first),
            second,
        ) ==> can_pointwise(<T as Add>::add, second, y.values)
}

/// The left-hand side of the differential equation `y'' + y = 0` for the
/// sampled function `grid_func`. For a solution of the equation it is the
/// zero function, as far as the grid resolves it.
pub fn differential_equation_function<T: Scalar>(grid_func: &GridFunction<T>) -> (residual:
    GridFunction<T>)
    requires
        grid_func@.points.len() >= 2,
        grid_func@.covers_grid(),
        can_oscillator_residual(grid_func@),
    ensures
        residual@.points == grid_func@.points,
        residual@.values.len() == grid_func@.points.len(),
        is_oscillator_residual(grid_func@, residual@.values),
{
    let first = grid_func.central_difference_derivative();
    assert(first@ == on_grid_of(grid_func@, first@.values));
    let second = first.central_difference_derivative();
    second.add(grid_func)
}

/// Where arithmetic is total, [`differential_equation_function`] is an
/// operator on every sampled function with at least two grid points and as
/// many values: it can be applied to every function on that grid, and keeps
/// the number of values.
pub proof fn oscillator_operator_defined<T: Scalar>(trial: Samples<T>)
    requires
        total_arithmetic::<T>(),
        trial.points.len() >= 2,
        trial.consistent(),
    ensures
        operator_defined_on(differential_equation_function::<T>, trial),
{
}

} // verus!
