//! Pointwise arithmetic on sampled functions.
//!
//! The result of a binary operation lives on the grid of the left operand
//! and has as many values as the left operand. Where the right operand has
//! fewer values, zeros stand in for the missing ones; where it has more, the
//! surplus is left out.
use crate::grid_function::GridFunction;
use crate::scalar::{can_multiply, is_number, is_product, Scalar};
use std::ops::{Add, Div, Mul, Sub};
use vstd::prelude::*;

verus! {

/// The values of the right operand as the left one meets them: cut or
/// filled up with `zero` to `len` values.
pub open spec fn fitted<T>(right: Seq<T>, len: nat, zero: T) -> Seq<T> {
    Seq::new(
        len,
        |i: int|
            if i < right.len() {
                right[i]
            } else {
                zero
            },
    )
}

/// `values` are an outcome of the operator `op` between the functions with
/// the values `left` and `right`, point by point: there are as many as
/// `left` has, and each is an outcome of `op` on the value of `left` there
/// and the value of `right` there, or an embedded zero where `right` has no
/// value.
pub open spec fn is_pointwise<T: Scalar, F: Fn(T, T) -> T>(
    op: F,
    left: Seq<T>,
    right: Seq<T>,
    values: Seq<T>,
) -> bool {
    exists|zero: T|
        {
            &&& is_number(0, zero)
            &&& values.len() == left.len()
            &&& forall|i: int|
                0 <= i < left.len() ==> call_ensures(
                    op,
                    (left[i], fitted(right, left.len(), zero)[i]),
                    #[trigger] values[i],
                )
        }
}

/// At each point, the operator `op` accepts the values of `left` and
/// `right` that [`is_pointwise`] hands to it.
pub open spec fn can_pointwise<T: Scalar, F: Fn(T, T) -> T>(
    op: F,
    left: Seq<T>,
    right: Seq<T>,
) -> bool {
    forall|zero: T, i: int|
        is_number(0, zero) && 0 <= i < left.len() ==> call_requires(
            op,
            (left[i], #[trigger] fitted(right, left.len(), zero)[i]),
        )
}

/// `values` are an outcome of multiplying each of `factors` by `scalar`
/// from the left.
pub open spec fn is_scaled<T: Scalar>(scalar: T, factors: Seq<T>, values: Seq<T>) -> bool {
    &&& values.len() == factors.len()
    &&& forall|i: int|
        0 <= i < factors.len() ==> is_product(scalar, factors[i], #[trigger] values[i])
}

/// `scalar` can be multiplied with each of `factors`.
pub open spec fn can_scale<T: Scalar>(scalar: T, factors: Seq<T>) -> bool {
    forall|i: int| 0 <= i < factors.len() ==> can_multiply(scalar, #[trigger] factors[i])
}

/// Where the outcomes of `op` do not depend on the order of its operands,
/// the outcomes of `op` between two functions with equally many values do
/// not depend on their order either. Addition and multiplication of numbers
/// are of this kind.
pub proof fn pointwise_commutes<T: Scalar, F: Fn(T, T) -> T>(
    op: F,
    left: Seq<T>,
    right: Seq<T>,
    values: Seq<T>,
)
    requires
        left.len() == right.len(),
        forall|a: T, b: T, outcome: T| #[trigger]
            call_ensures(op, (a, b), outcome) ==> call_ensures(op, (b, a), outcome),
        is_pointwise(op, left, right, values),
    ensures
        is_pointwise(op, right, left, values),
{
    let zero = choose|zero: T|
        {
            &&& is_number(0, zero)
            &&& values.len() == left.len()
            &&& forall|i: int|
                0 <= i < left.len() ==> call_ensures(
                    op,
                    (left[i], fitted(right, left.len(), zero)[i]),
                    #[trigger] values[i],
                )
        };
    assert forall|i: int| 0 <= i < right.len() implies call_ensures(
        op,
        (right[i], fitted(left, right.len(), zero)[i]),
        #[trigger] values[i],
    ) by {
        assert(call_ensures(op, (left[i], fitted(right, left.len(), zero)[i]), values[i]));
    }
}

impl<T: Scalar> GridFunction<T> {
    /// Applies `op` between this function and `grid_func`, point by point.
    fn pointwise<F>(&self, grid_func: &GridFunction<T>, op: F) -> (result: Self) where
        F: Fn(T, T) -> T,

        requires
            can_pointwise(op, self@.values, grid_func@.values),
        ensures
            result@.points == self@.points,
            is_pointwise(op, self@.values, grid_func@.values, result@.values),
    {
        let zero: T = T::from(0);
        let ghost operand = fitted(grid_func@.values, self@.values.len(), zero);
        let mut function_values: Vec<T> = Vec::new();
        let mut i: usize = 0;
        while i < self.function_values.len()
            invariant
                i <= self@.values.len(),
                function_values@.len() == i,
                is_number(0, zero),
                operand == fitted(grid_func@.values, self@.values.len(), zero),
                can_pointwise(op, self@.values, grid_func@.values),
                forall|k: int|
                    0 <= k < i ==> call_ensures(
                        op,
                        (self@.values[k], operand[k]),
                        #[trigger] function_values@[k],
                    ),
            decreases self@.values.len() - i,
        {
            let right: T = if i < grid_func.function_values.len() {
                grid_func.function_values[i]
            } else {
                zero
            };
            assert(right == operand[i as int]);
            function_values.push(op(self.function_values[i], right));
            i += 1;
        }
        GridFunction { grid: self.grid.clone(), function_values }
    }

    /// Adds `grid_func` to this function, point by point.
    pub fn add(self: &Self, grid_func: &GridFunction<T>) -> (sum: Self)
        requires
            can_pointwise(<T as Add>::add, self@.values, grid_func@.values),
        ensures
            sum@.points == self@.points,
            is_pointwise(<T as Add>::add, self@.values, grid_func@.values, sum@.values),
    {
        self.pointwise(grid_func, <T as Add>::add)
    }

    /// Subtracts `grid_func` from this function, point by point.
    pub fn subtract(self: &Self, grid_func: &GridFunction<T>) -> (difference: Self)
        requires
            can_pointwise(<T as Sub>::sub, self@.values, grid_func@.values),
        ensures
            difference@.points == self@.points,
            is_pointwise(<T as Sub>::sub, self@.values, grid_func@.values, difference@.values),
    {
        self.pointwise(grid_func, <T as Sub>::sub)
    }

    /// Multiplies this function by `grid_func`, point by point.
    pub fn multiply(self: &Self, grid_func: &GridFunction<T>) -> (product: Self)
        requires
            can_pointwise(<T as Mul>::mul, self@.values, grid_func@.values),
        ensures
            product@.points == self@.points,
            is_pointwise(<T as Mul>::mul, self@.values, grid_func@.values, product@.values),
    {
        self.pointwise(grid_func, <T as Mul>::mul)
    }

    /// Divides this function by `grid_func`, point by point. A point where
    /// `grid_func` has no value is divided by zero.
    pub fn divide(self: &Self, grid_func: &GridFunction<T>) -> (quotient: Self)
        requires
            can_pointwise(<T as Div>::div, self@.values, grid_func@.values),
        ensures
            quotient@.points == self@.points,
            is_pointwise(<T as Div>::div, self@.values, grid_func@.values, quotient@.values),
    {
        self.pointwise(grid_func, <T as Div>::div)
    }

    /// Multiplies every value of this function by `scalar`.
    pub fn scale(self: &Self, scalar: T) -> (scaled: Self)
        requires
            can_scale(scalar, self@.values),
        ensures
            scaled@.points == self@.points,
            is_scaled(scalar, self@.values, scaled@.values),
    {
        let mut function_values: Vec<T> = Vec::new();
        let mut i: usize = 0;
        while i < self.function_values.len()
            invariant
                i <= self@.values.len(),
                function_values@.len() == i,
                can_scale(scalar, self@.values),
                forall|k: int|
                    0 <= k < i ==> is_product(scalar, self@.values[k], #[trigger] function_values@[k]),
            decreases self@.values.len() - i,
        {
            function_values.push(scalar * self.function_values[i]);
            i += 1;
        }
        GridFunction { grid: self.grid.clone(), function_values }
    }
}

} // verus!
