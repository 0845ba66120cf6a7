//! Definite integrals of a sampled function over its grid.
use crate::grid_function::{GridFunction, Samples};
use crate::quadratic_interpolation::{
    can_interpolation, can_parabola_integral, is_interpolation, is_parabola_integral,
    quadratic_integral, quadratic_interpolation_coefficients,
};
use crate::scalar::{
    can_add, can_multiply, can_subtract, is_difference, is_number, is_product, is_sum,
    total_arithmetic, Scalar,
};
use vstd::prelude::*;

verus! {

/// Why an integral could not be taken.
#[derive(Debug, Clone, Copy, PartialEq, Eq)]
pub enum IntegrationError {
    /// The rule needs an odd number of grid points and was given an even one.
    InvalidPointCount,
}

/// The number of cells between `len` grid points.
pub open spec fn cell_count(len: nat) -> nat {
    if len == 0 {
        0
    } else {
        (len - 1) as nat
    }
}

/// `area` is the area over cell `k`, with the function taken as flat at its
/// value on the left edge of the cell: that value times the width of the
/// cell.
pub open spec fn is_cell_area<T: Scalar>(samples: Samples<T>, k: int, area: T) -> bool {
    exists|width: T|
        {
            &&& is_difference(samples.points[k + 1], samples.points[k], width)
            &&& is_product(samples.values[k], width, area)
        }
}

/// Each operation behind [`is_cell_area`] accepts its operands.
pub open spec fn can_cell_area<T: Scalar>(samples: Samples<T>, k: int) -> bool {
    &&& can_subtract(samples.points[k + 1], samples.points[k])
    &&& forall|width: T|
        is_difference(samples.points[k + 1], samples.points[k], width) ==> can_multiply(
            samples.values[k],
            width,
        )
}

/// `total` is the sum of the areas over the first `cells` cells: each area
/// in turn, from the left, added to an embedded zero.
pub open spec fn is_riemann_sum<T: Scalar>(samples: Samples<T>, cells: nat, total: T) -> bool
    decreases cells,
{
    if cells == 0 {
        is_number(0, total)
    } else {
        exists|before: T, area: T|
            {
                &&& is_riemann_sum(samples, (cells - 1) as nat, before)
                &&& is_cell_area(samples, cells - 1, area)
                &&& is_sum(before, area, total)
            }
    }
}

/// Each operation behind [`is_riemann_sum`] accepts its operands.
pub open spec fn can_riemann_sum<T: Scalar>(samples: Samples<T>, cells: nat) -> bool
    decreases cells,
{
    cells == 0 || {
        &&& can_riemann_sum(samples, (cells - 1) as nat)
        &&& can_cell_area(samples, cells - 1)
        &&& forall|before: T, area: T|
            is_riemann_sum(samples, (cells - 1) as nat, before) && is_cell_area(
                samples,
                cells - 1,
                area,
            ) ==> can_add(before, area)
    }
}

/// The number of panels, of two cells each, between `len` grid points.
pub open spec fn panel_count(len: nat) -> nat {
    if len == 0 {
        0
    } else {
        ((len - 1) / 2) as nat
    }
}

/// A grid of `len` points can be cut into panels of two cells.
pub open spec fn odd_point_count(len: nat) -> bool {
    len % 2 == 1
}

/// The three grid points of panel `k`.
pub open spec fn panel_points<T: Scalar>(samples: Samples<T>, k: int) -> (T, T, T) {
    (samples.points[2 * k], samples.points[2 * k + 1], samples.points[2 * k + 2])
}

/// The three values on panel `k`.
pub open spec fn panel_values<T: Scalar>(samples: Samples<T>, k: int) -> (T, T, T) {
    (samples.values[2 * k], samples.values[2 * k + 1], samples.values[2 * k + 2])
}

/// `integral` is the integral over panel `k` of the parabola through its
/// three samples, from the first point of the panel to the last.
pub open spec fn is_panel_integral<T: Scalar>(samples: Samples<T>, k: int, integral: T) -> bool {
    exists|coefficients: (T, T, T)|
        {
            &&& #[trigger] is_interpolation(
                panel_points(samples, k),
                panel_values(samples, k),
                coefficients,
            )
            &&& is_parabola_integral(
                coefficients,
                panel_points(samples, k).0,
                panel_points(samples, k).2,
                integral,
            )
        }
}

/// Each operation behind [`is_panel_integral`] accepts its operands.
pub open spec fn can_panel_integral<T: Scalar>(samples: Samples<T>, k: int) -> bool {
    &&& can_interpolation(panel_points(samples, k), panel_values(samples, k))
    &&& forall|coefficients: (T, T, T)| #[trigger]
        is_interpolation(panel_points(samples, k), panel_values(samples, k), coefficients)
            ==> can_parabola_integral(
            coefficients,
            panel_points(samples, k).0,
            panel_points(samples, k).2,
        )
}

/// `total` is the sum of the integrals over the first `panels` panels: each
/// integral in turn, from the left, added to an embedded zero.
pub open spec fn is_simpson_sum<T: Scalar>(samples: Samples<T>, panels: nat, total: T) -> bool
    decreases panels,
{
    if panels == 0 {
        is_number(0, total)
    } else {
        exists|before: T, integral: T|
            {
                &&& is_simpson_sum(samples, (panels - 1) as nat, before)
                &&& is_panel_integral(samples, panels - 1, integral)
                &&& is_sum(before, integral, total)
            }
    }
}

/// Each operation behind [`is_simpson_sum`] accepts its operands.
pub open spec fn can_simpson_sum<T: Scalar>(samples: Samples<T>, panels: nat) -> bool
    decreases panels,
{
    panels == 0 || {
        &&& can_simpson_sum(samples, (panels - 1) as nat)
        &&& can_panel_integral(samples, panels - 1)
        &&& forall|before: T, integral: T|
            is_simpson_sum(samples, (panels - 1) as nat, before) && is_panel_integral(
                samples,
                panels - 1,
                integral,
            ) ==> can_add(before, integral)
    }
}

/// What [`can_riemann_sum`] says of `cells` cells it says of any fewer.
pub proof fn can_riemann_sum_before<T: Scalar>(samples: Samples<T>, cells: nat, fewer: nat)
    requires
        can_riemann_sum(samples, cells),
        fewer <= cells,
    ensures
        can_riemann_sum(samples, fewer),
    decreases cells,
{
    if fewer < cells {
        can_riemann_sum_before(samples, (cells - 1) as nat, fewer);
    }
}

/// What [`can_simpson_sum`] says of `panels` panels it says of any fewer.
pub proof fn can_simpson_sum_before<T: Scalar>(samples: Samples<T>, panels: nat, fewer: nat)
    requires
        can_simpson_sum(samples, panels),
        fewer <= panels,
    ensures
        can_simpson_sum(samples, fewer),
    decreases panels,
{
    if fewer < panels {
        can_simpson_sum_before(samples, (panels - 1) as nat, fewer);
    }
}

/// Where arithmetic is total, the Riemann sum can be taken over any
/// number of cells.
pub proof fn total_arithmetic_allows_riemann_sum<T: Scalar>(samples: Samples<T>, cells: nat)
    requires
        total_arithmetic::<T>(),
    ensures
        can_riemann_sum(samples, cells),
    decreases cells,
{
    if cells > 0 {
        total_arithmetic_allows_riemann_sum(samples, (cells - 1) as nat);
    }
}

/// Where arithmetic is total, the Simpson sum can be taken over any number
/// of panels.
pub proof fn total_arithmetic_allows_simpson_sum<T: Scalar>(samples: Samples<T>, panels: nat)
    requires
        total_arithmetic::<T>(),
    ensures
        can_simpson_sum(samples, panels),
    decreases panels,
{
    if panels > 0 {
        total_arithmetic_allows_simpson_sum(samples, (panels - 1) as nat);
    }
}

impl<T: Scalar> GridFunction<T> {
    /// The integral of this function over its grid as a Riemann sum: over
    /// each cell the function is taken as flat, at its value on the left
    /// edge. A grid without a cell gives zero.
    pub fn integrate_riemann_sum(self: &Self) -> (integral: T)
        requires
            self@.covers_grid(),
            can_riemann_sum(self@, cell_count(self@.points.len())),
        ensures
            is_riemann_sum(self@, cell_count(self@.points.len()), integral),
    {
        let num_points: usize = self.grid.grid_points.len();
        let mut integral: T = T::from(0);
        if num_points == 0 {
            return integral;
        }
        let mut n: usize = 0;
        while n < num_points - 1
            invariant
                n <= num_points - 1,
                num_points == self@.points.len(),
                num_points >= 1,
                self@.covers_grid(),
                can_riemann_sum(self@, (num_points - 1) as nat),
                is_riemann_sum(self@, n as nat, integral),
            decreases num_points - 1 - n,
        {
            proof {
                can_riemann_sum_before(self@, (num_points - 1) as nat, (n + 1) as nat);
            }
            let width: T = self.grid.grid_points[n + 1] - self.grid.grid_points[n];
            let area: T = self.function_values[n] * width;
            assert(is_cell_area(self@, n as int, area));
            integral = integral + area;
            n += 1;
        }
        integral
    }

    /// The integral of this function over its grid by the composite Simpson
    /// rule: over each panel of two cells the function is taken as the
    /// parabola through its three samples there.
    ///
    /// The number of grid points has to be odd; with an even number the
    /// integral is refused.
    pub fn integrate_composite_simpsons_rule(self: &Self) -> (integral: Result<
        T,
        IntegrationError,
    >)
        requires
            self@.covers_grid(),
            odd_point_count(self@.points.len()) ==> can_simpson_sum(
                self@,
                panel_count(self@.points.len()),
            ),
        ensures
            match integral {
                Ok(total) => {
                    &&& odd_point_count(self@.points.len())
                    &&& is_simpson_sum(self@, panel_count(self@.points.len()), total)
                },
                Err(error) => {
                    &&& !odd_point_count(self@.points.len())
                    &&& error == IntegrationError::InvalidPointCount
                },
            },
    {
        let num_points: usize = self.grid.grid_points.len();
        if num_points % 2 == 0 {
            return Err(IntegrationError::InvalidPointCount);
        }
        let num_panels: usize = (num_points - 1) / 2;
        let mut integral: T = T::from(0);
        let mut k: usize = 0;
        while k < num_panels
            invariant
                k <= num_panels,
                num_points == self@.points.len(),
                num_panels == panel_count(num_points as nat),
                2 * num_panels + 1 == num_points,
                self@.covers_grid(),
                can_simpson_sum(self@, num_panels as nat),
                is_simpson_sum(self@, k as nat, integral),
            decreases num_panels - k,
        {
            proof {
                can_simpson_sum_before(self@, num_panels as nat, (k + 1) as nat);
            }
            let n: usize = 2 * k;
            let points: (T, T, T) = (
                self.grid.grid_points[n],
                self.grid.grid_points[n + 1],
                self.grid.grid_points[n + 2],
            );
            let function_values: (T, T, T) = (
                self.function_values[n],
                self.function_values[n + 1],
                self.function_values[n + 2],
            );
            assert(points == panel_points(self@, k as int));
            assert(function_values == panel_values(self@, k as int));
            let quadratic_coefficients: (T, T, T) = quadratic_interpolation_coefficients(
                points,
                function_values,
            );
            let panel: T = quadratic_integral(quadratic_coefficients, points.0, points.2);
            assert(is_panel_integral(self@, k as int, panel));
            integral = integral + panel;
            k += 1;
        }
        Ok(integral)
    }
}

} // verus!
