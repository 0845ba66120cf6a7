use bvp_solver::boundary_conditions::BoundaryConditions;
use bvp_solver::boundary_value_problems::{
    apply_newton_update, get_jacobian_matrix, get_residual_vector, newtons_method,
    newtons_method_step, NewtonError,
};
use bvp_solver::differential_equation::differential_equation_function;
use bvp_solver::grid::Grid;
use bvp_solver::grid_function::GridFunction;

const PI: f64 = std::f64::consts::PI;

fn sampled(points: Vec<f64>, values: Vec<f64>) -> GridFunction<f64> {
    GridFunction { grid: Grid { grid_points: points }, function_values: values }
}

fn solve_linear_system(matrix: &Vec<f64>, vector: &Vec<f64>, matrix_size: usize) -> Option<Vec<f64>> {
    let matrix = nalgebra::DMatrix::from_row_slice(matrix_size, matrix_size, matrix);
    let vector = nalgebra::DVector::from_column_slice(vector);
    let lu = nalgebra::LU::new(matrix);
    lu.solve(&vector).map(|solution| solution.data.as_vec().clone())
}

fn identity(grid_func: &GridFunction<f64>) -> GridFunction<f64> {
    grid_func.clone()
}

fn square(grid_func: &GridFunction<f64>) -> GridFunction<f64> {
    grid_func.multiply(grid_func)
}

fn nothing(grid_func: &GridFunction<f64>) -> GridFunction<f64> {
    grid_func.scale(0.0)
}

#[test]
fn test_jacobian_of_identity() {
    let grid_func = sampled(vec![0.0, 1.0, 2.0, 3.0], vec![1.0, 2.0, 3.0, 4.0]);
    let jacobian = get_jacobian_matrix(&identity, &grid_func, 0.5);
    assert_eq!(
        jacobian,
        vec![
            1.0, 0.0, 0.0, 0.0, //
            0.0, 1.0, 0.0, 0.0, //
            0.0, 0.0, 1.0, 0.0, //
            0.0, 0.0, 0.0, 1.0,
        ]
    );
}

#[test]
fn test_jacobian_of_square() {
    // The difference quotient of y² with step h at y is 2y + h.
    let grid_func = sampled(vec![0.0, 1.0, 2.0, 3.0], vec![1.0, 2.0, 3.0, 4.0]);
    let jacobian = get_jacobian_matrix(&square, &grid_func, 0.5);
    assert_eq!(
        jacobian,
        vec![
            1.0, 0.0, 0.0, 0.0, //
            0.0, 4.5, 0.0, 0.0, //
            0.0, 0.0, 6.5, 0.0, //
            0.0, 0.0, 0.0, 1.0,
        ]
    );
}

#[test]
fn test_jacobian_boundary_rows() {
    let grid: Grid<f64> = Grid::new_uniform_grid(0.0, PI, 7);
    let grid_func = GridFunction::new_grid_function(&grid, f64::sin);
    let jacobian = get_jacobian_matrix(&differential_equation_function, &grid_func, 1e-6);
    assert_eq!(jacobian.len(), 49);
    assert_eq!(jacobian[0..7], [1.0, 0.0, 0.0, 0.0, 0.0, 0.0, 0.0]);
    assert_eq!(jacobian[42..49], [0.0, 0.0, 0.0, 0.0, 0.0, 0.0, 1.0]);
    // In the middle row the operator reads the point itself and the
    // neighbours two places away.
    let spacing = PI / 6.0;
    let outer = 1.0 / (4.0 * spacing * spacing);
    let expected = [0.0, outer, 0.0, 1.0 - 2.0 * outer, 0.0, outer, 0.0];
    for j in 0..7 {
        assert!((jacobian[3 * 7 + j] - expected[j]).abs() < 1e-6, "column {}", j);
    }
}

#[test]
fn test_jacobian_of_small_systems() {
    let jacobian = get_jacobian_matrix(&identity, &sampled(vec![], vec![]), 1e-6);
    assert_eq!(jacobian, vec![]);
    let jacobian = get_jacobian_matrix(&square, &sampled(vec![0.0], vec![3.0]), 1e-6);
    assert_eq!(jacobian, vec![1.0]);
    let jacobian = get_jacobian_matrix(&square, &sampled(vec![0.0, 1.0], vec![3.0, 4.0]), 1e-6);
    assert_eq!(jacobian, vec![1.0, 0.0, 0.0, 1.0]);
}

#[test]
fn test_residual_vector() {
    let grid_func = sampled(vec![0.0, 1.0, 2.0, 3.0], vec![1.0, 2.0, 3.0, 4.0]);
    let boundary_conditions = BoundaryConditions::new_dirichlet_bcs(0.25, 10.0);
    let residual = get_residual_vector(&square, &grid_func, &boundary_conditions);
    assert_eq!(residual, vec![0.75, 4.0, 9.0, -6.0]);
}

#[test]
fn test_residual_vector_of_small_systems() {
    let boundary_conditions = BoundaryConditions::new_dirichlet_bcs(0.25, 10.0);
    let residual = get_residual_vector(&identity, &sampled(vec![], vec![]), &boundary_conditions);
    assert_eq!(residual, vec![]);
    // With one value, the right boundary condition has the last word.
    let residual =
        get_residual_vector(&identity, &sampled(vec![0.0], vec![3.0]), &boundary_conditions);
    assert_eq!(residual, vec![-7.0]);
    let residual = get_residual_vector(
        &identity,
        &sampled(vec![0.0, 1.0], vec![3.0, 4.0]),
        &boundary_conditions,
    );
    assert_eq!(residual, vec![2.75, -6.0]);
}

#[test]
fn test_residual_of_sine_is_small() {
    let grid: Grid<f64> = Grid::new_uniform_grid(0.0, PI, 21);
    let sine = GridFunction::new_grid_function(&grid, f64::sin);
    let residual = differential_equation_function(&sine);
    assert_eq!(residual.grid, grid);
    assert_eq!(residual.function_values.len(), 21);
    let spacing = PI / 20.0;
    // Two places from either end and further in, the second derivative is
    // the central one over twice the spacing.
    for i in 2..19 {
        assert!(
            residual.function_values[i].abs() < spacing * spacing / 3.0,
            "residual {} at point {}",
            residual.function_values[i],
            i
        );
    }
    // At the ends and next to them the one-sided differences come in, and
    // the residual is of the order of the spacing.
    for i in 0..21 {
        assert!(residual.function_values[i].abs() < spacing / 2.0);
    }
    let boundary_conditions = BoundaryConditions::new_dirichlet_bcs(0.0, 0.0);
    let vector = get_residual_vector(&differential_equation_function, &sine, &boundary_conditions);
    assert_eq!(vector[0], 0.0);
    assert!(vector[20].abs() < 1e-15);
    assert_eq!(vector[1..20], residual.function_values[1..20]);
}

#[test]
fn test_residual_shrinks_with_spacing() {
    let mut largest: Vec<f64> = Vec::new();
    for num_points in [21usize, 41] {
        let grid: Grid<f64> = Grid::new_uniform_grid(0.0, PI, num_points);
        let sine = GridFunction::new_grid_function(&grid, f64::sin);
        let residual = differential_equation_function(&sine);
        let mut worst: f64 = 0.0;
        for i in 2..(num_points - 2) {
            worst = worst.max(residual.function_values[i].abs());
        }
        largest.push(worst);
    }
    assert!((largest[0] / largest[1] - 4.0).abs() < 0.1);
}

#[test]
fn test_apply_newton_update() {
    let guess = sampled(vec![0.0, 1.0, 2.0], vec![1.0, 2.0, 3.0]);
    let updated = apply_newton_update(&guess, Some(vec![0.5, -2.0, 0.25])).unwrap();
    assert_eq!(updated.function_values, vec![1.5, 0.0, 3.25]);
    assert_eq!(updated.grid, guess.grid);
    let updated = apply_newton_update(&guess, Some(vec![0.5, -2.0])).unwrap();
    assert_eq!(updated.function_values, vec![1.5, 0.0]);
    let updated = apply_newton_update(&guess, Some(vec![0.5, -2.0, 0.25, 8.0])).unwrap();
    assert_eq!(updated.function_values, vec![1.5, 0.0, 3.25]);
    assert_eq!(apply_newton_update(&guess, None), Err(NewtonError::SingularJacobian));
}

#[test]
fn test_newton_step_solves_linear_problem() {
    // For F(y) = y the step leads to the boundary values at the ends and
    // to zero in between.
    let guess = sampled(vec![0.0, 1.0, 2.0, 3.0], vec![1.0, 2.0, 3.0, 4.0]);
    let boundary_conditions = BoundaryConditions::new_dirichlet_bcs(0.25, 10.0);
    let next = newtons_method_step(
        &identity,
        &solve_linear_system,
        &guess,
        &boundary_conditions,
        0.5,
    )
    .unwrap();
    assert_eq!(next.function_values, vec![0.25, 0.0, 0.0, 10.0]);
    assert_eq!(next.grid, guess.grid);
}

#[test]
fn test_newton_step_hands_system_to_solver() {
    let guess = sampled(vec![0.0, 1.0, 2.0, 3.0], vec![1.0, 2.0, 3.0, 4.0]);
    let boundary_conditions = BoundaryConditions::new_dirichlet_bcs(0.25, 10.0);
    let solver = |matrix: &Vec<f64>, vector: &Vec<f64>, matrix_size: usize| {
        assert_eq!(matrix_size, 4);
        assert_eq!(
            *matrix,
            vec![
                1.0, 0.0, 0.0, 0.0, //
                0.0, 4.5, 0.0, 0.0, //
                0.0, 0.0, 6.5, 0.0, //
                0.0, 0.0, 0.0, 1.0,
            ]
        );
        assert_eq!(*vector, vec![-0.75, -4.0, -9.0, 6.0]);
        Some(vec![1.0, 1.0, 1.0, 1.0])
    };
    let next =
        newtons_method_step(&square, &solver, &guess, &boundary_conditions, 0.5).unwrap();
    assert_eq!(next.function_values, vec![2.0, 3.0, 4.0, 5.0]);
}

#[test]
fn test_newton_step_with_singular_jacobian() {
    let guess = sampled(vec![0.0, 1.0, 2.0, 3.0], vec![1.0, 2.0, 3.0, 4.0]);
    let boundary_conditions = BoundaryConditions::new_dirichlet_bcs(0.0, 0.0);
    let outcome = newtons_method_step(
        &nothing,
        &solve_linear_system,
        &guess,
        &boundary_conditions,
        1e-6,
    );
    assert_eq!(outcome, Err(NewtonError::SingularJacobian));
    let outcome =
        newtons_method(nothing, solve_linear_system, &boundary_conditions, &guess, 5);
    assert_eq!(outcome, Err(NewtonError::SingularJacobian));
}

#[test]
fn test_newtons_method_without_iterations() {
    let guess = sampled(vec![0.0, 1.0, 2.0, 3.0], vec![1.0, 2.0, 3.0, 4.0]);
    let boundary_conditions = BoundaryConditions::new_dirichlet_bcs(0.0, 0.0);
    let outcome = newtons_method(nothing, solve_linear_system, &boundary_conditions, &guess, 0);
    assert_eq!(outcome, Ok(guess));
}

#[test]
fn test_newtons_method_finds_square_root() {
    // F(y) = y² - 2 at the inner points: Newton's method finds the root of 2.
    let two_less = |grid_func: &GridFunction<f64>| {
        let two = GridFunction::new_constant_grid_function(&grid_func.grid, 2.0);
        grid_func.multiply(grid_func).subtract(&two)
    };
    let grid: Grid<f64> = Grid::new_uniform_grid(0.0, 1.0, 5);
    let guess = GridFunction::new_constant_grid_function(&grid, 1.0);
    let boundary_conditions = BoundaryConditions::new_dirichlet_bcs(3.0, -4.0);
    let solution =
        newtons_method(two_less, solve_linear_system, &boundary_conditions, &guess, 8).unwrap();
    assert_eq!(solution.grid, grid);
    assert_eq!(solution.function_values.len(), 5);
    assert!((solution.function_values[0] - 3.0).abs() < 1e-12);
    assert!((solution.function_values[4] + 4.0).abs() < 1e-12);
    for i in 1..4 {
        assert!((solution.function_values[i] - 2.0_f64.sqrt()).abs() < 1e-9);
    }
}

#[test]
fn test_newtons_method_solves_oscillator() {
    // y'' + y = 0 with y(0) = 0 and y(π/2) = 1 has the solution sin.
    let grid: Grid<f64> = Grid::new_uniform_grid(0.0, PI / 2.0, 21);
    let guess = GridFunction::new_grid_function(&grid, |x| x * 2.0 / PI);
    let boundary_conditions = BoundaryConditions::new_dirichlet_bcs(0.0, 1.0);
    let solution = newtons_method(
        differential_equation_function,
        solve_linear_system,
        &boundary_conditions,
        &guess,
        3,
    )
    .unwrap();
    assert_eq!(solution.grid, grid);
    assert_eq!(solution.function_values.len(), 21);
    assert!(solution.function_values[0].abs() < 1e-9);
    assert!((solution.function_values[20] - 1.0).abs() < 1e-9);
    let residual = differential_equation_function(&solution);
    for i in 1..20 {
        assert!(residual.function_values[i].abs() < 1e-6, "residual at point {}", i);
    }
    for i in 0..21 {
        assert!((solution.function_values[i] - grid.grid_points[i].sin()).abs() < 0.05);
    }
}

#[test]
fn test_newton_steps_keep_grid() {
    let grid: Grid<f64> = Grid::new_uniform_grid(0.0, PI / 2.0, 9);
    let boundary_conditions = BoundaryConditions::new_dirichlet_bcs(0.0, 1.0);
    let mut trial = GridFunction::new_grid_function(&grid, |x| x * 2.0 / PI);
    for _ in 0..4 {
        let next = newtons_method_step(
            &differential_equation_function,
            &solve_linear_system,
            &trial,
            &boundary_conditions,
            1e-6,
        )
        .unwrap();
        assert_eq!(next.grid, trial.grid);
        assert_eq!(next.grid, grid);
        assert_eq!(next.function_values.len(), 9);
        trial = next;
    }
}

#[test]
fn test_newton_error_traits() {
    let error = NewtonError::SingularJacobian;
    let copy = error;
    assert_eq!(error, copy.clone());
    assert_eq!(format!("{:?}", error), "SingularJacobian");
}

#[test]
fn test_jacobian_evaluates_operator_once_for_each_column() {
    let evaluations = std::cell::Cell::new(0usize);
    let counted = |grid_func: &GridFunction<f64>| {
        evaluations.set(evaluations.get() + 1);
        grid_func.multiply(grid_func)
    };
    let grid_func = sampled(vec![0.0, 1.0, 2.0, 3.0, 4.0], vec![1.0, 2.0, 3.0, 4.0, 5.0]);
    let jacobian = get_jacobian_matrix(&counted, &grid_func, 0.5);
    assert_eq!(evaluations.get(), 6);
    assert_eq!(jacobian.len(), 25);
    assert_eq!(jacobian[6], 4.5);
    assert_eq!(jacobian[12], 6.5);
    assert_eq!(jacobian[18], 8.5);
    // Systems without an interior row need no evaluation.
    evaluations.set(0);
    let grid_func = sampled(vec![0.0, 1.0], vec![1.0, 2.0]);
    let jacobian = get_jacobian_matrix(&counted, &grid_func, 0.5);
    assert_eq!(evaluations.get(), 0);
    assert_eq!(jacobian, vec![1.0, 0.0, 0.0, 1.0]);
}

#[test]
fn test_jacobian_of_coupled_operator() {
    // F(y)[i] = y[i] * y[i + 1] on the inner points reads two columns.
    let coupled = |grid_func: &GridFunction<f64>| {
        let mut shifted = grid_func.clone();
        shifted.function_values.rotate_left(1);
        grid_func.multiply(&shifted)
    };
    let grid_func = sampled(vec![0.0, 1.0, 2.0, 3.0], vec![1.0, 2.0, 3.0, 4.0]);
    let jacobian = get_jacobian_matrix(&coupled, &grid_func, 0.5);
    assert_eq!(
        jacobian,
        vec![
            1.0, 0.0, 0.0, 0.0, //
            0.0, 3.0, 2.0, 0.0, //
            0.0, 0.0, 4.0, 3.0, //
            0.0, 0.0, 0.0, 1.0,
        ]
    );
}

#[test]
fn test_newtons_method_perturbs_by_a_millionth() {
    let seen = std::cell::RefCell::new(Vec::<f64>::new());
    let recorded = |grid_func: &GridFunction<f64>| {
        seen.borrow_mut().extend(grid_func.function_values.iter().copied());
        grid_func.clone()
    };
    let guess = sampled(vec![0.0, 1.0, 2.0], vec![0.0, 0.0, 0.0]);
    let boundary_conditions = BoundaryConditions::new_dirichlet_bcs(0.0, 0.0);
    let solution =
        newtons_method(recorded, solve_linear_system, &boundary_conditions, &guess, 1).unwrap();
    assert_eq!(solution.function_values, vec![0.0, 0.0, 0.0]);
    let seen = seen.into_inner();
    assert!(seen.iter().all(|value| *value == 0.0 || *value == 1e-6));
    assert_eq!(seen.iter().filter(|value| **value == 1e-6).count(), 3);
}
