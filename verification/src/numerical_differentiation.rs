//! Finite-difference derivatives of a sampled function.
use crate::grid_function::{GridFunction, Samples};
use crate::scalar::{can_divide, can_subtract, is_difference, is_quotient, Scalar};
use vstd::prelude::*;

verus! {

/// `slope` is the slope of the chord between the samples at positions `lo`
/// and `hi`: the difference of the values over the difference of the
/// points, the sample at `lo` taken away from the one at `hi`.
pub open spec fn is_chord_slope<T: Scalar>(samples: Samples<T>, hi: int, lo: int, slope: T) -> bool {
    exists|rise: T, run: T|
        {
            &&& is_difference(samples.values[hi], samples.values[lo], rise)
            &&& is_difference(samples.points[hi], samples.points[lo], run)
            &&& is_quotient(rise, run, slope)
        }
}

/// Each operation behind [`is_chord_slope`] accepts its operands.
pub open spec fn can_chord_slope<T: Scalar>(samples: Samples<T>, hi: int, lo: int) -> bool {
    &&& can_subtract(samples.values[hi], samples.values[lo])
    &&& can_subtract(samples.points[hi], samples.points[lo])
    &&& forall|rise: T, run: T|
        {
            &&& is_difference(samples.values[hi], samples.values[lo], rise)
            &&& is_difference(samples.points[hi], samples.points[lo], run)
        } ==> can_divide(rise, run)
}

/// The two positions that the forward scheme reads at position `i` of `len`
/// points, the higher one first: the point and its right neighbour, and at
/// the last point the point and its left neighbour.
pub open spec fn forward_stencil(len: int, i: int) -> (int, int) {
    if i + 1 < len {
        (i + 1, i)
    } else {
        (len - 1, len - 2)
    }
}

/// The two positions that the central scheme reads at position `i` of `len`
/// points, the higher one first: both neighbours, and at either end the end
/// point and its one neighbour.
pub open spec fn central_stencil(len: int, i: int) -> (int, int) {
    if i == 0 {
        (1, 0)
    } else if i + 1 < len {
        (i + 1, i - 1)
    } else {
        (len - 1, len - 2)
    }
}

/// `slopes` is a forward-difference derivative of `samples`: at each grid
/// point the slope of the chord over [`forward_stencil`].
pub open spec fn is_forward_difference<T: Scalar>(samples: Samples<T>, slopes: Seq<T>) -> bool {
    &&& slopes.len() == samples.points.len()
    &&& forall|i: int|
        0 <= i < samples.points.len() ==> is_chord_slope(
            samples,
            forward_stencil(samples.points.len() as int, i).0,
            forward_stencil(samples.points.len() as int, i).1,
            #[trigger] slopes[i],
        )
}

/// `slopes` is a central-difference derivative of `samples`: at each grid
/// point the slope of the chord over [`central_stencil`].
pub open spec fn is_central_difference<T: Scalar>(samples: Samples<T>, slopes: Seq<T>) -> bool {
    &&& slopes.len() == samples.points.len()
    &&& forall|i: int|
        0 <= i < samples.points.len() ==> is_chord_slope(
            samples,
            central_stencil(samples.points.len() as int, i).0,
            central_stencil(samples.points.len() as int, i).1,
            #[trigger] slopes[i],
        )
}

/// Each operation behind entry `i` of a forward-difference derivative
/// accepts its operands.
pub open spec fn can_forward_difference_at<T: Scalar>(samples: Samples<T>, i: int) -> bool {
    can_chord_slope(
        samples,
        forward_stencil(samples.points.len() as int, i).0,
        forward_stencil(samples.points.len() as int, i).1,
    )
}

/// Each operation behind entry `i` of a central-difference derivative
/// accepts its operands.
pub open spec fn can_central_difference_at<T: Scalar>(samples: Samples<T>, i: int) -> bool {
    can_chord_slope(
        samples,
        central_stencil(samples.points.len() as int, i).0,
        central_stencil(samples.points.len() as int, i).1,
    )
}

/// Each operation behind [`is_forward_difference`] accepts its operands.
pub open spec fn can_forward_difference<T: Scalar>(samples: Samples<T>) -> bool {
    forall|i: int|
        0 <= i < samples.points.len() ==> #[trigger] can_forward_difference_at(samples, i)
}

/// Each operation behind [`is_central_difference`] accepts its operands.
pub open spec fn can_central_difference<T: Scalar>(samples: Samples<T>) -> bool {
    forall|i: int|
        0 <= i < samples.points.len() ==> #[trigger] can_central_difference_at(samples, i)
}

impl<T: Scalar> GridFunction<T> {
    /// The slope of the chord between the samples at `lo` and `hi`.
    fn chord_slope(&self, hi: usize, lo: usize) -> (slope: T)
        requires
            self@.covers_grid(),
            hi < self@.points.len(),
            lo < self@.points.len(),
            can_chord_slope(self@, hi as int, lo as int),
        ensures
            is_chord_slope(self@, hi as int, lo as int, slope),
    {
        let rise: T = self.function_values[hi] - self.function_values[lo];
        let run: T = self.grid.grid_points[hi] - self.grid.grid_points[lo];
        rise / run
    }

    /// The derivative of this function by the forward-difference scheme.
    ///
    /// At the last grid point, which has no right neighbour, the backward
    /// difference is taken.
    pub fn forward_difference_derivative(self: &Self) -> (derivative: Self)
        requires
            self@.points.len() >= 2,
            self@.covers_grid(),
            can_forward_difference(self@),
        ensures
            derivative@.points == self@.points,
            is_forward_difference(self@, derivative@.values),
    {
        let num_points: usize = self.grid.grid_points.len();
        let mut first_derivative_values: Vec<T> = Vec::new();
        let mut i: usize = 0;
        while i < num_points
            invariant
                i <= num_points,
                num_points == self@.points.len(),
                num_points >= 2,
                self@.covers_grid(),
                can_forward_difference(self@),
                first_derivative_values@.len() == i,
                forall|k: int|
                    0 <= k < i ==> is_chord_slope(
                        self@,
                        forward_stencil(num_points as int, k).0,
                        forward_stencil(num_points as int, k).1,
                        #[trigger] first_derivative_values@[k],
                    ),
            decreases num_points - i,
        {
            assert(can_forward_difference_at(self@, i as int));
            let slope: T = if i + 1 < num_points {
                self.chord_slope(i + 1, i)
            } else {
                self.chord_slope(num_points - 1, num_points - 2)
            };
            first_derivative_values.push(slope);
            i += 1;
        }
        GridFunction { grid: self.grid.clone(), function_values: first_derivative_values }
    }

    /// The derivative of this function by the central-difference scheme.
    ///
    /// At the first grid point the forward difference is taken, at the last
    /// the backward difference.
    pub fn central_difference_derivative(self: &Self) -> (derivative: Self)
        requires
            self@.points.len() >= 2,
            self@.covers_grid(),
            can_central_difference(self@),
        ensures
            derivative@.points == self@.points,
            is_central_difference(self@, derivative@.values),
    {
        let num_points: usize = self.grid.grid_points.len();
        let mut first_derivative_values: Vec<T> = Vec::new();
        let mut i: usize = 0;
        while i < num_points
            invariant
                i <= num_points,
                num_points == self@.points.len(),
                num_points >= 2,
                self@.covers_grid(),
                can_central_difference(self@),
                first_derivative_values@.len() == i,
                forall|k: int|
                    0 <= k < i ==> is_chord_slope(
                        self@,
                        central_stencil(num_points as int, k).0,
                        central_stencil(num_points as int, k).1,
                        #[trigger] first_derivative_values@[k],
                    ),
            decreases num_points - i,
        {
            assert(can_central_difference_at(self@, i as int));
            let slope: T = if i == 0 {
                self.chord_slope(1, 0)
            } else if i + 1 < num_points {
                self.chord_slope(i + 1, i - 1)
            } else {
                self.chord_slope(num_points - 1, num_points - 2)
            };
            first_derivative_values.push(slope);
            i += 1;
        }
        GridFunction { grid: self.grid.clone(), function_values: first_derivative_values }
    }
}

} // verus!
