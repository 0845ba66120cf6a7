//! Newton's method for two-point boundary value problems.
//!
//! A differential equation `F(y) = 0` is given by its operator `F`, which
//! maps a sampled function to the sampled residual. The solution is
//! approached from a trial function by Newton steps: the Jacobian of `F` at
//! the trial function is estimated by forward differences, the linear system
//! for the update is handed to a solver, and the update is added to the trial
//! function. The first and the last equation of each system are replaced by
//! the boundary conditions.
use crate::boundary_conditions::BoundaryConditions;
use crate::grid::copy_of;
use crate::grid_function::{GridFunction, Samples};
use crate::scalar::{
    can_add, can_divide, can_negate, can_subtract, is_difference, is_number, is_opposite,
    is_quotient, is_sum, total_arithmetic, Scalar,
};
use std::ops::Neg;
use vstd::prelude::*;

verus! {

/// Why Newton's method came to no result.
#[derive(Debug, Clone, Copy, PartialEq, Eq)]
pub enum NewtonError {
    /// The linear system for an update has no unique solution.
    SingularJacobian,
}

/// The operator `de_func` can be applied to every function on the grid of
/// `trial` with as many values as `trial` has, and gives back as many values.
pub open spec fn operator_defined_on<T, F: Fn(&GridFunction<T>) -> GridFunction<T>>(
    de_func: F,
    trial: Samples<T>,
) -> bool {
    &&& forall|candidate: GridFunction<T>|
        candidate@.points == trial.points && candidate@.values.len() == trial.values.len()
            ==> #[trigger] call_requires(de_func, (&candidate,))
    &&& forall|candidate: GridFunction<T>, image: GridFunction<T>|
        {
            &&& candidate@.points == trial.points
            &&& candidate@.values.len() == trial.values.len()
            &&& #[trigger] call_ensures(de_func, (&candidate,), image)
        } ==> image@.values.len() == trial.values.len()
}

/// The solver can be given every system of `len` equations, and what it
/// returns as a solution has `len` entries.
pub open spec fn solver_defined_for<T, S: Fn(&Vec<T>, &Vec<T>, usize) -> Option<Vec<T>>>(
    solver: S,
    len: usize,
) -> bool {
    &&& forall|matrix: Vec<T>, vector: Vec<T>|
        matrix@.len() == len * len && vector@.len() == len ==> #[trigger] call_requires(
            solver,
            (&matrix, &vector, len),
        )
    &&& forall|matrix: Vec<T>, vector: Vec<T>, solution: Vec<T>|
        {
            &&& matrix@.len() == len * len
            &&& vector@.len() == len
            &&& #[trigger] call_ensures(solver, (&matrix, &vector, len), Some(solution))
        } ==> solution@.len() == len
}

/// `shifted` is `trial` with the value at position `j` moved by `step`: on
/// the same grid, with the same values but for `trial.values[j] + step` at
/// position `j`.
pub open spec fn is_perturbation<T: Scalar>(
    trial: Samples<T>,
    j: int,
    step: T,
    shifted: Samples<T>,
) -> bool {
    &&& shifted.points == trial.points
    &&& exists|moved: T|
        is_sum(trial.values[j], step, moved) && shifted.values == trial.values.update(j, moved)
}

/// `estimate` is the forward-difference estimate of a partial derivative:
/// the change from `base` to `moved`, over the `step` that caused it,
/// `(moved - base) / step`.
pub open spec fn is_forward_quotient<T: Scalar>(moved: T, base: T, step: T, estimate: T) -> bool {
    exists|change: T| is_difference(moved, base, change) && is_quotient(change, step, estimate)
}

/// Each operation behind [`is_forward_quotient`] accepts its operands.
pub open spec fn can_forward_quotient<T: Scalar>(moved: T, base: T, step: T) -> bool {
    &&& can_subtract(moved, base)
    &&& forall|change: T| is_difference(moved, base, change) ==> can_divide(change, step)
}

/// Row `i` of a system of `len` equations is one of the two that stand for
/// the boundary conditions.
pub open spec fn boundary_row(len: int, i: int) -> bool {
    i == 0 || i == len - 1
}

/// `entry` is an entry of a row that stands for a boundary condition: an
/// embedded one on the diagonal, an embedded zero elsewhere.
pub open spec fn is_boundary_entry<T: Scalar>(on_diagonal: bool, entry: T) -> bool {
    is_number(
        if on_diagonal {
            1i32
        } else {
            0i32
        },
        entry,
    )
}

/// `image` is what `de_func` makes of `trial` with the value at position
/// `j` moved by `step`.
pub open spec fn is_perturbed_image<T: Scalar, F: Fn(&GridFunction<T>) -> GridFunction<T>>(
    de_func: F,
    trial: Samples<T>,
    j: int,
    step: T,
    image: GridFunction<T>,
) -> bool {
    exists|shifted: GridFunction<T>|
        is_perturbation(trial, j, step, shifted@) && #[trigger] call_ensures(
            de_func,
            (&shifted,),
            image,
        )
}

/// `entry` is an entry in row `i` of a column of the Jacobian matrix of
/// `len` rows, where `base` are the values of the operator at the trial
/// function and `moved` its values after the value of the trial function
/// that the column stands for was moved by `step`.
///
/// The first and the last row are rows of the unit matrix. In every other
/// row the entry is the forward-difference estimate of the derivative of
/// component `i` of the operator.
pub open spec fn is_jacobian_entry<T: Scalar>(
    len: nat,
    base: Seq<T>,
    moved: Seq<T>,
    step: T,
    i: int,
    on_diagonal: bool,
    entry: T,
) -> bool {
    if boundary_row(len as int, i) {
        is_boundary_entry(on_diagonal, entry)
    } else {
        is_forward_quotient(moved[i], base[i], step, entry)
    }
}

/// The entry in row `i` and column `j` of the square matrix of `len` rows
/// that `matrix` holds row by row.
pub open spec fn matrix_entry<T>(matrix: Seq<T>, len: nat, i: int, j: int) -> T {
    matrix[i * len + j]
}

/// `base` is what `de_func` makes of `trial`, and `columns` holds, for
/// each value of `trial`, what `de_func` makes of `trial` with that value
/// moved by `step`. A system of less than three equations has boundary rows
/// only: `de_func` is not asked then.
pub open spec fn is_jacobian_evaluations<T: Scalar, F: Fn(&GridFunction<T>) -> GridFunction<T>>(
    de_func: F,
    trial: GridFunction<T>,
    step: T,
    base: GridFunction<T>,
    columns: Seq<GridFunction<T>>,
) -> bool {
    trial@.values.len() > 2 ==> {
        &&& call_ensures(de_func, (&trial,), base)
        &&& columns.len() == trial@.values.len()
        &&& forall|j: int|
            0 <= j < columns.len() ==> is_perturbed_image(
                de_func,
                trial@,
                j,
                step,
                #[trigger] columns[j],
            )
    }
}

/// `matrix` is a Jacobian matrix of `de_func` at `trial`, held row by row:
/// `de_func` is evaluated once at `trial` and once at `trial` with each
/// single value moved by `step`, and the entry in row `i` and column `j` is
/// made of these as [`is_jacobian_entry`] says.
pub open spec fn is_jacobian<T: Scalar, F: Fn(&GridFunction<T>) -> GridFunction<T>>(
    de_func: F,
    trial: GridFunction<T>,
    step: T,
    matrix: Seq<T>,
) -> bool {
    &&& matrix.len() == trial@.values.len() * trial@.values.len()
    &&& exists|base: GridFunction<T>, columns: Seq<GridFunction<T>>|
        {
            &&& #[trigger] is_jacobian_evaluations(de_func, trial, step, base, columns)
            &&& forall|i: int, j: int|
                0 <= i < trial@.values.len() && 0 <= j < trial@.values.len()
                    ==> is_jacobian_entry(
                    trial@.values.len(),
                    base@.values,
                    columns[j]@.values,
                    step,
                    i,
                    i == j,
                    #[trigger] matrix_entry(matrix, trial@.values.len(), i, j),
                )
        }
}

/// Each operation behind the Jacobian matrix of `de_func` at `trial` accepts
/// its operands, whatever `de_func` returns.
pub open spec fn can_jacobian<T: Scalar, F: Fn(&GridFunction<T>) -> GridFunction<T>>(
    de_func: F,
    trial: GridFunction<T>,
    step: T,
) -> bool {
    trial@.values.len() <= 2 || {
        &&& forall|j: int|
            0 <= j < trial@.values.len() ==> can_add(#[trigger] trial@.values[j], step)
        &&& forall|base: GridFunction<T>, moved: GridFunction<T>, j: int|
            {
                &&& 0 <= j < trial@.values.len()
                &&& #[trigger] call_ensures(de_func, (&trial,), base)
                &&& #[trigger] is_perturbed_image(de_func, trial@, j, step, moved)
            } ==> forall|i: int|
                0 < i < trial@.values.len() - 1 ==> #[trigger] can_forward_quotient(
                    moved@.values[i],
                    base@.values[i],
                    step,
                )
    }
}

/// A copy of `grid_func` with the value at position `j` moved by `step`.
fn perturbed_copy<T: Scalar>(grid_func: &GridFunction<T>, j: usize, step: T) -> (shifted:
    GridFunction<T>)
    requires
        j < grid_func@.values.len(),
        can_add(grid_func@.values[j as int], step),
    ensures
        shifted@.values.len() == grid_func@.values.len(),
        is_perturbation(grid_func@, j as int, step, shifted@),
{
    let mut function_values: Vec<T> = copy_of(&grid_func.function_values);
    let value: T = function_values[j] + step;
    function_values.set(j, value);
    GridFunction { grid: grid_func.grid.clone(), function_values }
}

/// What `de_func` makes of `grid_func` with each single value moved by
/// `step`, one sampled function for each value.
fn perturbed_images<T: Scalar, F>(de_func: &F, grid_func: &GridFunction<T>, step: T) -> (columns:
    Vec<GridFunction<T>>) where F: Fn(&GridFunction<T>) -> GridFunction<T>
    requires
        operator_defined_on(*de_func, grid_func@),
        forall|j: int|
            0 <= j < grid_func@.values.len() ==> can_add(#[trigger] grid_func@.values[j], step),
    ensures
        columns@.len() == grid_func@.values.len(),
        forall|j: int|
            0 <= j < columns@.len() ==> (#[trigger] columns@[j])@.values.len()
                == grid_func@.values.len(),
        forall|j: int|
            0 <= j < columns@.len() ==> is_perturbed_image(
                *de_func,
                grid_func@,
                j,
                step,
                #[trigger] columns@[j],
            ),
{
    let mut columns: Vec<GridFunction<T>> = Vec::new();
    let mut j: usize = 0;
    while j < grid_func.function_values.len()
        invariant
            j <= grid_func@.values.len(),
            columns@.len() == j,
            operator_defined_on(*de_func, grid_func@),
            forall|k: int|
                0 <= k < grid_func@.values.len() ==> can_add(
                    #[trigger] grid_func@.values[k],
                    step,
                ),
            forall|k: int|
                0 <= k < j ==> (#[trigger] columns@[k])@.values.len() == grid_func@.values.len(),
            forall|k: int|
                0 <= k < j ==> is_perturbed_image(
                    *de_func,
                    grid_func@,
                    k,
                    step,
                    #[trigger] columns@[k],
                ),
        decreases grid_func@.values.len() - j,
    {
        let perturbed_grid_func = perturbed_copy(grid_func, j, step);
        let image = de_func(&perturbed_grid_func);
        assert(is_perturbed_image(*de_func, grid_func@, j as int, step, image));
        columns.push(image);
        j += 1;
    }
    columns
}

/// Appends row `i` of the unit matrix of `len` rows to `matrix`, where `i`
/// is the first or the last row.
fn push_boundary_row<T: Scalar>(matrix: &mut Vec<T>, len: usize, i: usize, zero: T, one: T)
    requires
        i < len,
        boundary_row(len as int, i as int),
        old(matrix)@.len() == i * len,
        is_number(0, zero),
        is_number(1, one),
    ensures
        final(matrix)@.len() == (i + 1) * len,
        final(matrix)@.take(old(matrix)@.len() as int) == old(matrix)@,
        forall|j: int|
            0 <= j < len ==> is_boundary_entry(
                i == j,
                #[trigger] matrix_entry(final(matrix)@, len as nat, i as int, j),
            ),
{
    let ghost before = matrix@;
    let mut j: usize = 0;
    while j < len
        invariant
            j <= len,
            i < len,
            is_number(0, zero),
            is_number(1, one),
            before.len() == i * len,
            matrix@.len() == i * len + j,
            matrix@.take(before.len() as int) == before,
            forall|k: int|
                0 <= k < j ==> is_boundary_entry(
                    i == k,
                    #[trigger] matrix_entry(matrix@, len as nat, i as int, k),
                ),
        decreases len - j,
    {
        let ghost earlier = matrix@;
        let entry: T = if j == i {
            one
        } else {
            zero
        };
        matrix.push(entry);
        proof {
            assert(matrix@.take(before.len() as int) =~= earlier.take(before.len() as int));
            assert forall|k: int| 0 <= k < j + 1 implies is_boundary_entry(
                i == k,
                #[trigger] matrix_entry(matrix@, len as nat, i as int, k),
            ) by {
                if k < j {
                    assert(matrix_entry(matrix@, len as nat, i as int, k) == matrix_entry(
                        earlier,
                        len as nat,
                        i as int,
                        k,
                    ));
                }
            }
        }
        j += 1;
    }
    proof {
        assert((i + 1) * len == i * len + len) by (nonlinear_arith);
    }
}

/// Appends row `i` of the Jacobian matrix to `matrix`, where `i` is neither
/// the first nor the last row: the forward-difference estimates from the
/// images `columns` of the perturbed trial functions and the image `base`
/// of the trial function itself.
fn push_interior_row<T: Scalar>(
    matrix: &mut Vec<T>,
    i: usize,
    base: &GridFunction<T>,
    columns: &Vec<GridFunction<T>>,
    step: T,
)
    requires
        0 < i < columns@.len() - 1,
        old(matrix)@.len() == i * columns@.len(),
        base@.values.len() == columns@.len(),
        forall|j: int|
            0 <= j < columns@.len() ==> (#[trigger] columns@[j])@.values.len() == columns@.len(),
        forall|j: int|
            0 <= j < columns@.len() ==> can_forward_quotient(
                (#[trigger] columns@[j])@.values[i as int],
                base@.values[i as int],
                step,
            ),
    ensures
        final(matrix)@.len() == (i + 1) * columns@.len(),
        final(matrix)@.take(old(matrix)@.len() as int) == old(matrix)@,
        forall|j: int|
            0 <= j < columns@.len() ==> is_forward_quotient(
                columns@[j]@.values[i as int],
                base@.values[i as int],
                step,
                #[trigger] matrix_entry(final(matrix)@, columns@.len(), i as int, j),
            ),
{
    let len: usize = columns.len();
    let ghost before = matrix@;
    let mut j: usize = 0;
    while j < len
        invariant
            j <= len,
            len == columns@.len(),
            0 < i < len - 1,
            base@.values.len() == len,
            forall|k: int| 0 <= k < len ==> (#[trigger] columns@[k])@.values.len() == len,
            forall|k: int|
                0 <= k < len ==> can_forward_quotient(
                    (#[trigger] columns@[k])@.values[i as int],
                    base@.values[i as int],
                    step,
                ),
            before.len() == i * len,
            matrix@.len() == i * len + j,
            matrix@.take(before.len() as int) == before,
            forall|k: int|
                0 <= k < j ==> is_forward_quotient(
                    columns@[k]@.values[i as int],
                    base@.values[i as int],
                    step,
                    #[trigger] matrix_entry(matrix@, len as nat, i as int, k),
                ),
        decreases len - j,
    {
        let ghost earlier = matrix@;
        assert(can_forward_quotient(
            columns@[j as int]@.values[i as int],
            base@.values[i as int],
            step,
        ));
        let change: T = columns[j].function_values[i] - base.function_values[i];
        let estimate: T = change / step;
        matrix.push(estimate);
        proof {
            assert(matrix@.take(before.len() as int) =~= earlier.take(before.len() as int));
            assert forall|k: int| 0 <= k < j + 1 implies is_forward_quotient(
                columns@[k]@.values[i as int],
                base@.values[i as int],
                step,
                #[trigger] matrix_entry(matrix@, len as nat, i as int, k),
            ) by {
                if k < j {
                    assert(matrix_entry(matrix@, len as nat, i as int, k) == matrix_entry(
                        earlier,
                        len as nat,
                        i as int,
                        k,
                    ));
                }
            }
        }
        j += 1;
    }
    proof {
        assert((i + 1) * len == i * len + len) by (nonlinear_arith);
    }
}

/// The first `rows` rows of `matrix` are rows of a Jacobian matrix of `len`
/// rows, made of `base` and `columns` as [`is_jacobian_entry`] says.
pub open spec fn is_jacobian_rows<T: Scalar>(
    len: nat,
    base: Seq<T>,
    columns: Seq<GridFunction<T>>,
    step: T,
    matrix: Seq<T>,
    rows: int,
) -> bool {
    forall|i: int, j: int|
        0 <= i < rows && 0 <= j < len ==> is_jacobian_entry(
            len,
            base,
            columns[j]@.values,
            step,
            i,
            i == j,
            #[trigger] matrix_entry(matrix, len, i, j),
        )
}

/// Rows that were rows of a Jacobian matrix stay so when the matrix grows.
proof fn jacobian_rows_stay<T: Scalar>(
    len: nat,
    base: Seq<T>,
    columns: Seq<GridFunction<T>>,
    step: T,
    before: Seq<T>,
    after: Seq<T>,
    rows: int,
)
    requires
        is_jacobian_rows(len, base, columns, step, before, rows),
        0 <= rows,
        before.len() == rows * len,
        after.len() >= before.len(),
        after.take(before.len() as int) == before,
    ensures
        is_jacobian_rows(len, base, columns, step, after, rows),
{
    assert forall|i: int, j: int| 0 <= i < rows && 0 <= j < len implies is_jacobian_entry(
        len,
        base,
        columns[j]@.values,
        step,
        i,
        i == j,
        #[trigger] matrix_entry(after, len, i, j),
    ) by {
        assert(i * len + j < rows * len) by (nonlinear_arith)
            requires
                0 <= i < rows,
                0 <= j < len,
        ;
        assert(after.take(before.len() as int)[i * len + j] == after[i * len + j]);
        assert(matrix_entry(after, len, i, j) == matrix_entry(before, len, i, j));
    }
}

/// The Jacobian matrix of `de_func` at the trial solution `grid_func`, as a
/// flat vector in row-major order.
///
/// To hold the boundary conditions, the first and the last row are set to
/// `[1, 0, ..., 0]` and `[0, ..., 0, 1]`. The entry in any other row `i` and
/// column `j` is the forward-difference estimate, with the step
/// `step_size`, of the partial derivative of component `i` of
/// `de_func(grid_func)` by value `j` of `grid_func`. For all of them
/// `de_func` is evaluated once at `grid_func` and once for each column.
pub fn get_jacobian_matrix<T: Scalar, F>(
    de_func: &F,
    grid_func: &GridFunction<T>,
    step_size: T,
) -> (jacobian_matrix: Vec<T>) where F: Fn(&GridFunction<T>) -> GridFunction<T>
    requires
        operator_defined_on(*de_func, grid_func@),
        can_jacobian(*de_func, *grid_func, step_size),
    ensures
        is_jacobian(*de_func, *grid_func, step_size, jacobian_matrix@),
{
    let matrix_size: usize = grid_func.function_values.len();
    let mut jacobian_matrix: Vec<T> = Vec::new();
    if matrix_size == 0 {
        assert(is_jacobian_evaluations(*de_func, *grid_func, step_size, *grid_func, Seq::empty()));
        return jacobian_matrix;
    }
    let zero: T = T::from(0);
    let one: T = T::from(1);
    let ghost mut base_values: Seq<T> = Seq::empty();
    let ghost mut images: Seq<GridFunction<T>> = Seq::empty();
    let ghost mut base_image: GridFunction<T> = *grid_func;
    push_boundary_row(&mut jacobian_matrix, matrix_size, 0, zero, one);
    if matrix_size > 2 {
        let base = de_func(grid_func);
        let columns = perturbed_images(de_func, grid_func, step_size);
        proof {
            base_image = base;
            base_values = base@.values;
            images = columns@;
        }
        let mut i: usize = 1;
        while i < matrix_size - 1
            invariant
                1 <= i <= matrix_size - 1,
                matrix_size == grid_func@.values.len(),
                matrix_size > 2,
                can_jacobian(*de_func, *grid_func, step_size),
                call_ensures(*de_func, (grid_func,), base),
                base@.values.len() == matrix_size,
                columns@.len() == matrix_size,
                forall|k: int|
                    0 <= k < matrix_size ==> (#[trigger] columns@[k])@.values.len()
                        == matrix_size,
                forall|k: int|
                    0 <= k < matrix_size ==> is_perturbed_image(
                        *de_func,
                        grid_func@,
                        k,
                        step_size,
                        #[trigger] columns@[k],
                    ),
                jacobian_matrix@.len() == i * matrix_size,
                is_jacobian_rows(
                    matrix_size as nat,
                    base@.values,
                    columns@,
                    step_size,
                    jacobian_matrix@,
                    i as int,
                ),
            decreases matrix_size - i,
        {
            let ghost before = jacobian_matrix@;
            proof {
                assert forall|j: int| 0 <= j < matrix_size implies can_forward_quotient(
                    (#[trigger] columns@[j])@.values[i as int],
                    base@.values[i as int],
                    step_size,
                ) by {
                    assert(is_perturbed_image(*de_func, grid_func@, j, step_size, columns@[j]));
                }
            }
            push_interior_row(&mut jacobian_matrix, i, &base, &columns, step_size);
            proof {
                assert((i + 1) * matrix_size >= i * matrix_size) by (nonlinear_arith);
                jacobian_rows_stay(
                    matrix_size as nat,
                    base@.values,
                    columns@,
                    step_size,
                    before,
                    jacobian_matrix@,
                    i as int,
                );
            }
            i += 1;
        }
    }
    if matrix_size > 1 {
        let ghost before = jacobian_matrix@;
        push_boundary_row(&mut jacobian_matrix, matrix_size, matrix_size - 1, zero, one);
        proof {
            assert((matrix_size - 1 + 1) * matrix_size >= (matrix_size - 1) * matrix_size)
                by (nonlinear_arith);
            jacobian_rows_stay(
                matrix_size as nat,
                base_values,
                images,
                step_size,
                before,
                jacobian_matrix@,
                matrix_size - 1,
            );
        }
    }
    proof {
        assert(is_jacobian_evaluations(*de_func, *grid_func, step_size, base_image, images));
        assert(is_jacobian_rows(
            matrix_size as nat,
            base_image@.values,
            images,
            step_size,
            jacobian_matrix@,
            matrix_size as int,
        ));
    }
    jacobian_matrix
}

/// `residual` is the residual vector that belongs to the values `image` of
/// the operator at the trial values `trial`: `image` with its first entry
/// replaced by `trial[0] - left_bc`, and then its last entry by
/// `trial[last] - right_bc`.
pub open spec fn is_residual_values<T: Scalar>(
    image: Seq<T>,
    trial: Seq<T>,
    boundary_conditions: BoundaryConditions<T>,
    residual: Seq<T>,
) -> bool {
    if image.len() == 0 {
        residual == image
    } else {
        let first = trial[0];
        let last = trial[image.len() - 1];
        exists|left: T, right: T|
            {
                &&& is_difference(first, boundary_conditions.left_bc, left)
                &&& is_difference(last, boundary_conditions.right_bc, right)
                &&& residual == image.update(0, left).update(image.len() - 1, right)
            }
    }
}

/// Each operation behind [`is_residual_values`] accepts its operands.
pub open spec fn can_residual<T: Scalar>(
    trial: Seq<T>,
    boundary_conditions: BoundaryConditions<T>,
) -> bool {
    trial.len() == 0 || {
        &&& can_subtract(trial[0], boundary_conditions.left_bc)
        &&& can_subtract(trial[trial.len() - 1], boundary_conditions.right_bc)
    }
}

/// `residual` is a residual vector of `de_func` at `trial`: it comes from
/// one evaluation of `de_func` at `trial` as [`is_residual_values`] says.
pub open spec fn is_residual<T: Scalar, F: Fn(&GridFunction<T>) -> GridFunction<T>>(
    de_func: F,
    trial: GridFunction<T>,
    boundary_conditions: BoundaryConditions<T>,
    residual: Seq<T>,
) -> bool {
    exists|image: GridFunction<T>|
        {
            &&& #[trigger] call_ensures(de_func, (&trial,), image)
            &&& is_residual_values(image@.values, trial@.values, boundary_conditions, residual)
        }
}

/// The residual vector of `de_func` at the trial solution `grid_func`: the
/// values of `de_func(grid_func)`, but for the first and the last, which
/// say how far `grid_func` is from the boundary conditions.
pub fn get_residual_vector<T: Scalar, F>(
    de_func: &F,
    grid_func: &GridFunction<T>,
    boundary_conditions: &BoundaryConditions<T>,
) -> (residual_vector: Vec<T>) where F: Fn(&GridFunction<T>) -> GridFunction<T>
    requires
        operator_defined_on(*de_func, grid_func@),
        can_residual(grid_func@.values, *boundary_conditions),
    ensures
        residual_vector@.len() == grid_func@.values.len(),
        is_residual(*de_func, *grid_func, *boundary_conditions, residual_vector@),
{
    let image = de_func(grid_func);
    let mut residual_vector: Vec<T> = copy_of(&image.function_values);
    let length: usize = residual_vector.len();
    if length == 0 {
        return residual_vector;
    }
    let left: T = grid_func.function_values[0] - boundary_conditions.left_bc;
    residual_vector.set(0, left);
    let right: T = grid_func.function_values[length - 1] - boundary_conditions.right_bc;
    residual_vector.set(length - 1, right);
    assert(is_residual_values(
        image@.values,
        grid_func@.values,
        *boundary_conditions,
        residual_vector@,
    ));
    residual_vector
}

/// `opposite` holds an outcome of negating each entry of `vector`.
pub open spec fn is_negated<T: Scalar>(vector: Seq<T>, opposite: Seq<T>) -> bool {
    &&& opposite.len() == vector.len()
    &&& forall|i: int| 0 <= i < vector.len() ==> is_opposite(vector[i], #[trigger] opposite[i])
}

/// Each entry of `vector` can be negated.
pub open spec fn can_negate_each<T: Scalar>(vector: Seq<T>) -> bool {
    forall|i: int| 0 <= i < vector.len() ==> can_negate(#[trigger] vector[i])
}

/// `values` are the values of a trial function after the update `delta`
/// was added to it, entry by entry, as far as both go.
pub open spec fn is_updated<T: Scalar>(trial: Seq<T>, delta: Seq<T>, values: Seq<T>) -> bool {
    &&& values.len() == if trial.len() <= delta.len() {
        trial.len()
    } else {
        delta.len()
    }
    &&& forall|i: int| 0 <= i < values.len() ==> is_sum(trial[i], delta[i], #[trigger] values[i])
}

/// Each addition behind [`is_updated`] accepts its operands.
pub open spec fn can_update<T: Scalar>(trial: Seq<T>, delta: Seq<T>) -> bool {
    forall|i: int| 0 <= i < trial.len() && i < delta.len() ==> can_add(#[trigger] trial[i], delta[i])
}

/// `outcome` is what a Newton step makes of the answer `solution` of the
/// solver: without a solution the step fails, with one the trial function
/// `guess` is moved by it and keeps its grid.
pub open spec fn is_update_outcome<T: Scalar>(
    guess: Samples<T>,
    solution: Option<Vec<T>>,
    outcome: Result<GridFunction<T>, NewtonError>,
) -> bool {
    match solution {
        None => outcome == Err::<GridFunction<T>, NewtonError>(NewtonError::SingularJacobian),
        Some(delta) => {
            &&& outcome is Ok
            &&& outcome->Ok_0@.points == guess.points
            &&& is_updated(guess.values, delta@, outcome->Ok_0@.values)
        },
    }
}

/// Moves the trial function `grid_func_guess` by the solution of the
/// linear system of a Newton step, where there is one.
pub fn apply_newton_update<T: Scalar>(
    grid_func_guess: &GridFunction<T>,
    solution: Option<Vec<T>>,
) -> (outcome: Result<GridFunction<T>, NewtonError>)
    requires
        solution matches Some(delta) ==> can_update(grid_func_guess@.values, delta@),
    ensures
        is_update_outcome(grid_func_guess@, solution, outcome),
{
    match solution {
        None => Err(NewtonError::SingularJacobian),
        Some(grid_func_update) => {
            let mut updated_guess_values: Vec<T> = Vec::new();
            let mut i: usize = 0;
            while i < grid_func_guess.function_values.len() && i < grid_func_update.len()
                invariant
                    i <= grid_func_guess@.values.len(),
                    i <= grid_func_update@.len(),
                    updated_guess_values@.len() == i,
                    can_update(grid_func_guess@.values, grid_func_update@),
                    forall|k: int|
                        0 <= k < i ==> is_sum(
                            grid_func_guess@.values[k],
                            grid_func_update@[k],
                            #[trigger] updated_guess_values@[k],
                        ),
                decreases grid_func_guess@.values.len() - i,
            {
                updated_guess_values.push(grid_func_guess.function_values[i] + grid_func_update[i]);
                i += 1;
            }
            Ok(
                GridFunction {
                    grid: grid_func_guess.grid.clone(),
                    function_values: updated_guess_values,
                },
            )
        },
    }
}

/// `outcome` is the outcome of one Newton step from the trial function
/// `guess`: there is a Jacobian matrix `J` and a residual vector `r` of
/// `de_func` at `guess` such that the solver, asked for the solution of
/// `J·Δ = −r`, gave an answer of which `outcome` is made as
/// [`is_update_outcome`] says.
pub open spec fn is_newton_step<
    T: Scalar,
    F: Fn(&GridFunction<T>) -> GridFunction<T>,
    S: Fn(&Vec<T>, &Vec<T>, usize) -> Option<Vec<T>>,
>(
    de_func: F,
    solver: S,
    guess: GridFunction<T>,
    boundary_conditions: BoundaryConditions<T>,
    step: T,
    outcome: Result<GridFunction<T>, NewtonError>,
) -> bool {
    exists|matrix: Vec<T>, vector: Vec<T>, residual: Seq<T>, solution: Option<Vec<T>>|
        {
            &&& is_jacobian(de_func, guess, step, matrix@)
            &&& #[trigger] is_residual(de_func, guess, boundary_conditions, residual)
            &&& is_negated(residual, vector@)
            &&& #[trigger] call_ensures(
                solver,
                (&matrix, &vector, guess.function_values.len()),
                solution,
            )
            &&& is_update_outcome(guess@, solution, outcome)
        }
}

/// Each operation of a Newton step from `guess` accepts its operands,
/// whatever `de_func` and `solver` return.
pub open spec fn can_newton_step<
    T: Scalar,
    F: Fn(&GridFunction<T>) -> GridFunction<T>,
    S: Fn(&Vec<T>, &Vec<T>, usize) -> Option<Vec<T>>,
>(
    de_func: F,
    solver: S,
    guess: GridFunction<T>,
    boundary_conditions: BoundaryConditions<T>,
    step: T,
) -> bool {
    &&& can_jacobian(de_func, guess, step)
    &&& can_residual(guess@.values, boundary_conditions)
    &&& forall|residual: Seq<T>| #[trigger]
        is_residual(de_func, guess, boundary_conditions, residual) ==> can_negate_each(residual)
    &&& forall|matrix: Vec<T>, vector: Vec<T>, delta: Vec<T>| #[trigger]
        call_ensures(solver, (&matrix, &vector, guess.function_values.len()), Some(delta))
            ==> can_update(guess@.values, delta@)
}

/// The vector with each entry of `vector` negated.
fn negate<T: Scalar>(vector: &Vec<T>) -> (opposite: Vec<T>)
    requires
        can_negate_each(vector@),
    ensures
        is_negated(vector@, opposite@),
{
    let mut opposite: Vec<T> = Vec::new();
    let mut i: usize = 0;
    while i < vector.len()
        invariant
            i <= vector@.len(),
            opposite@.len() == i,
            can_negate_each(vector@),
            forall|k: int| 0 <= k < i ==> is_opposite(vector@[k], #[trigger] opposite@[k]),
        decreases vector@.len() - i,
    {
        opposite.push(vector[i].neg());
        i += 1;
    }
    opposite
}

/// One step of Newton's method from the trial solution `grid_func_guess`.
///
/// The Jacobian matrix `J` and the residual vector `r` of `de_func` at the
/// trial solution are put up, `solver` is asked for the solution `Δ` of
/// `J·Δ = −r`, and `Δ` is added to the trial solution. `step_size` is the
/// step of the forward differences in the Jacobian matrix and should be
/// small.
///
/// `solver` takes a square matrix in row-major order, a right-hand side and
/// the number of equations, and returns the solution, or `None` where the
/// matrix is singular; the step then fails with
/// [`NewtonError::SingularJacobian`].
pub fn newtons_method_step<T: Scalar, F, S>(
    de_func: &F,
    solver: &S,
    grid_func_guess: &GridFunction<T>,
    boundary_conditions: &BoundaryConditions<T>,
    step_size: T,
) -> (outcome: Result<GridFunction<T>, NewtonError>) where
    F: Fn(&GridFunction<T>) -> GridFunction<T>,
    S: Fn(&Vec<T>, &Vec<T>, usize) -> Option<Vec<T>>,

    requires
        operator_defined_on(*de_func, grid_func_guess@),
        solver_defined_for(*solver, grid_func_guess.function_values.len()),
        can_newton_step(*de_func, *solver, *grid_func_guess, *boundary_conditions, step_size),
    ensures
        is_newton_step(
            *de_func,
            *solver,
            *grid_func_guess,
            *boundary_conditions,
            step_size,
            outcome,
        ),
        outcome is Ok ==> outcome->Ok_0@.points == grid_func_guess@.points
            && outcome->Ok_0@.values.len() == grid_func_guess@.values.len(),
{
    let jacobian_matrix = get_jacobian_matrix(de_func, grid_func_guess, step_size);
    let residual_vector = get_residual_vector(de_func, grid_func_guess, boundary_conditions);
    let matrix_size: usize = grid_func_guess.function_values.len();
    let right_hand_side = negate(&residual_vector);
    let solution = solver(&jacobian_matrix, &right_hand_side, matrix_size);
    apply_newton_update(grid_func_guess, solution)
}

/// `step` is the step of the forward differences that [`newtons_method`]
/// estimates the Jacobian matrix with: a millionth, the embedded one over
/// the embedded million.
pub open spec fn is_difference_step<T: Scalar>(step: T) -> bool {
    exists|one: T, million: T|
        is_number(1, one) && is_number(1_000_000, million) && is_quotient(one, million, step)
}

/// Each operation of Newton's method from `initial` accepts its operands,
/// whatever `de_func` and `solver` return: the step of the differences can
/// be computed, and a Newton step can be taken from every function on the
/// grid of `initial` with as many values.
pub open spec fn can_newton_run<
    T: Scalar,
    F: Fn(&GridFunction<T>) -> GridFunction<T>,
    S: Fn(&Vec<T>, &Vec<T>, usize) -> Option<Vec<T>>,
>(
    de_func: F,
    solver: S,
    boundary_conditions: BoundaryConditions<T>,
    initial: Samples<T>,
) -> bool {
    &&& forall|one: T, million: T|
        is_number(1, one) && is_number(1_000_000, million) ==> can_divide(one, million)
    &&& forall|guess: GridFunction<T>, step: T|
        {
            &&& guess@.points == initial.points
            &&& guess@.values.len() == initial.values.len()
            &&& #[trigger] is_difference_step(step)
        } ==> #[trigger] can_newton_step(de_func, solver, guess, boundary_conditions, step)
}

/// Where arithmetic is total, Newton's method can be run with every
/// operator and every solver.
pub proof fn total_arithmetic_allows_newton_run<
    T: Scalar,
    F: Fn(&GridFunction<T>) -> GridFunction<T>,
    S: Fn(&Vec<T>, &Vec<T>, usize) -> Option<Vec<T>>,
>(de_func: F, solver: S, boundary_conditions: BoundaryConditions<T>, initial: Samples<T>)
    requires
        total_arithmetic::<T>(),
    ensures
        can_newton_run(de_func, solver, boundary_conditions, initial),
{
}

/// In the sequence `trace` of trial functions, the one after position `k`
/// is the outcome of a Newton step from the one at position `k`.
pub open spec fn is_newton_link<
    T: Scalar,
    F: Fn(&GridFunction<T>) -> GridFunction<T>,
    S: Fn(&Vec<T>, &Vec<T>, usize) -> Option<Vec<T>>,
>(
    de_func: F,
    solver: S,
    boundary_conditions: BoundaryConditions<T>,
    step: T,
    trace: Seq<GridFunction<T>>,
    k: int,
) -> bool {
    is_newton_step(
        de_func,
        solver,
        trace[k],
        boundary_conditions,
        step,
        Ok::<GridFunction<T>, NewtonError>(trace[k + 1]),
    )
}

/// `trace` is a sequence of trial functions that Newton's method runs
/// through: it begins with `initial`, and each further one is the outcome of
/// a Newton step from the one before.
pub open spec fn is_newton_trace<
    T: Scalar,
    F: Fn(&GridFunction<T>) -> GridFunction<T>,
    S: Fn(&Vec<T>, &Vec<T>, usize) -> Option<Vec<T>>,
>(
    de_func: F,
    solver: S,
    boundary_conditions: BoundaryConditions<T>,
    step: T,
    initial: Samples<T>,
    trace: Seq<GridFunction<T>>,
) -> bool {
    &&& trace.len() >= 1
    &&& trace[0]@ == initial
    &&& forall|k: int|
        0 <= k < trace.len() - 1 ==> #[trigger] is_newton_link(
            de_func,
            solver,
            boundary_conditions,
            step,
            trace,
            k,
        )
}

/// `outcome` is the outcome of `num_iterations` Newton steps from
/// `initial`: the trial function after the last step, or the failure of the
/// first step that failed.
pub open spec fn is_newton_run<
    T: Scalar,
    F: Fn(&GridFunction<T>) -> GridFunction<T>,
    S: Fn(&Vec<T>, &Vec<T>, usize) -> Option<Vec<T>>,
>(
    de_func: F,
    solver: S,
    boundary_conditions: BoundaryConditions<T>,
    initial: Samples<T>,
    num_iterations: nat,
    outcome: Result<GridFunction<T>, NewtonError>,
) -> bool {
    exists|trace: Seq<GridFunction<T>>, step: T|
        {
            &&& is_difference_step(step)
            &&& #[trigger] is_newton_trace(
                de_func,
                solver,
                boundary_conditions,
                step,
                initial,
                trace,
            )
            &&& match outcome {
                Ok(last) => trace.len() == num_iterations + 1 && last == trace.last(),
                Err(error) => {
                    &&& error == NewtonError::SingularJacobian
                    &&& trace.len() <= num_iterations
                    &&& is_newton_step(
                        de_func,
                        solver,
                        trace.last(),
                        boundary_conditions,
                        step,
                        Err::<GridFunction<T>, NewtonError>(NewtonError::SingularJacobian),
                    )
                },
            }
        }
}

/// A Newton step that succeeds leaves the grid of the trial function as it
/// is.
pub proof fn newton_step_keeps_grid<
    T: Scalar,
    F: Fn(&GridFunction<T>) -> GridFunction<T>,
    S: Fn(&Vec<T>, &Vec<T>, usize) -> Option<Vec<T>>,
>(
    de_func: F,
    solver: S,
    guess: GridFunction<T>,
    boundary_conditions: BoundaryConditions<T>,
    step: T,
    next: GridFunction<T>,
)
    requires
        is_newton_step(
            de_func,
            solver,
            guess,
            boundary_conditions,
            step,
            Ok::<GridFunction<T>, NewtonError>(next),
        ),
    ensures
        next.grid@ == guess.grid@,
{
}

/// Every trial function that Newton's method runs through lives on the grid
/// of the initial one: the steps change values only.
pub proof fn newton_trace_keeps_grid<
    T: Scalar,
    F: Fn(&GridFunction<T>) -> GridFunction<T>,
    S: Fn(&Vec<T>, &Vec<T>, usize) -> Option<Vec<T>>,
>(
    de_func: F,
    solver: S,
    boundary_conditions: BoundaryConditions<T>,
    step: T,
    initial: Samples<T>,
    trace: Seq<GridFunction<T>>,
    k: int,
)
    requires
        is_newton_trace(de_func, solver, boundary_conditions, step, initial, trace),
        0 <= k < trace.len(),
    ensures
        trace[k].grid@ == initial.points,
    decreases k,
{
    if k > 0 {
        newton_trace_keeps_grid(de_func, solver, boundary_conditions, step, initial, trace, k - 1);
        assert(is_newton_link(de_func, solver, boundary_conditions, step, trace, k - 1));
        newton_step_keeps_grid(
            de_func,
            solver,
            trace[k - 1],
            boundary_conditions,
            step,
            trace[k],
        );
    }
}

/// Newton's method for the boundary value problem of the differential
/// equation `de_func` with the conditions `boundary_conditions`:
/// `num_iterations` Newton steps from the trial solution
/// `grid_func_initial_guess`, each estimating the Jacobian matrix with
/// forward differences of a millionth and leaving the linear system to
/// `solver` (see [`newtons_method_step`]).
///
/// The result is the trial solution after the last step, however close to
/// a solution it has come, or the failure of the first step that failed.
pub fn newtons_method<T: Scalar, F, S>(
    de_func: F,
    solver: S,
    boundary_conditions: &BoundaryConditions<T>,
    grid_func_initial_guess: &GridFunction<T>,
    num_iterations: usize,
) -> (outcome: Result<GridFunction<T>, NewtonError>) where
    F: Fn(&GridFunction<T>) -> GridFunction<T>,
    S: Fn(&Vec<T>, &Vec<T>, usize) -> Option<Vec<T>>,

    requires
        operator_defined_on(de_func, grid_func_initial_guess@),
        solver_defined_for(solver, grid_func_initial_guess.function_values.len()),
        can_newton_run(de_func, solver, *boundary_conditions, grid_func_initial_guess@),
    ensures
        is_newton_run(
            de_func,
            solver,
            *boundary_conditions,
            grid_func_initial_guess@,
            num_iterations as nat,
            outcome,
        ),
        outcome is Ok ==> outcome->Ok_0@.points == grid_func_initial_guess@.points
            && outcome->Ok_0@.values.len() == grid_func_initial_guess@.values.len(),
{
    let one: T = T::from(1);
    let million: T = T::from(1_000_000);
    let step_size: T = one / million;
    assert(is_difference_step(step_size));
    let mut grid_func_guess = grid_func_initial_guess.clone();
    let ghost mut trace: Seq<GridFunction<T>> = seq![grid_func_guess];
    let mut iteration: usize = 0;
    while iteration < num_iterations
        invariant
            iteration <= num_iterations,
            can_newton_run(de_func, solver, *boundary_conditions, grid_func_initial_guess@),
            operator_defined_on(de_func, grid_func_initial_guess@),
            solver_defined_for(solver, grid_func_initial_guess.function_values.len()),
            is_difference_step(step_size),
            grid_func_guess@.points == grid_func_initial_guess@.points,
            grid_func_guess@.values.len() == grid_func_initial_guess@.values.len(),
            trace.len() == iteration + 1,
            trace.last() == grid_func_guess,
            is_newton_trace(
                de_func,
                solver,
                *boundary_conditions,
                step_size,
                grid_func_initial_guess@,
                trace,
            ),
        decreases num_iterations - iteration,
    {
        assert(can_newton_step(
            de_func,
            solver,
            grid_func_guess,
            *boundary_conditions,
            step_size,
        ));
        let step = newtons_method_step(
            &de_func,
            &solver,
            &grid_func_guess,
            boundary_conditions,
            step_size,
        );
        match step {
            Ok(next) => {
                proof {
                    let longer = trace.push(next);
                    assert forall|k: int| 0 <= k < longer.len() - 1 implies #[trigger]
                        is_newton_link(
                        de_func,
                        solver,
                        *boundary_conditions,
                        step_size,
                        longer,
                        k,
                    ) by {
                        if k < trace.len() - 1 {
                            assert(is_newton_link(
                                de_func,
                                solver,
                                *boundary_conditions,
                                step_size,
                                trace,
                                k,
                            ));
                        }
                    }
                    trace = longer;
                }
                grid_func_guess = next;
            },
            Err(error) => {
                return Err(error);
            },
        }
        iteration += 1;
    }
    Ok(grid_func_guess)
}

} // verus!
