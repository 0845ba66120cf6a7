use bvp_solver::grid::Grid;
use bvp_solver::grid_function::GridFunction;

fn sampled(points: Vec<f64>, values: Vec<f64>) -> GridFunction<f64> {
    GridFunction { grid: Grid { grid_points: points }, function_values: values }
}

#[test]
fn test_forward_difference_exact_values() {
    let grid_func = sampled(vec![0.0, 1.0, 2.0, 3.0], vec![0.0, 1.0, 4.0, 9.0]);
    let derivative = grid_func.forward_difference_derivative();
    assert_eq!(derivative.function_values, vec![1.0, 3.0, 5.0, 5.0]);
    assert_eq!(derivative.grid, grid_func.grid);
}

#[test]
fn test_central_difference_exact_values() {
    let grid_func = sampled(vec![0.0, 1.0, 2.0, 3.0], vec![0.0, 1.0, 4.0, 9.0]);
    let derivative = grid_func.central_difference_derivative();
    assert_eq!(derivative.function_values, vec![1.0, 2.0, 4.0, 5.0]);
    assert_eq!(derivative.grid, grid_func.grid);
}

#[test]
fn test_differences_on_two_points() {
    let grid_func = sampled(vec![1.0, 3.0], vec![5.0, 9.0]);
    assert_eq!(grid_func.forward_difference_derivative().function_values, vec![2.0, 2.0]);
    assert_eq!(grid_func.central_difference_derivative().function_values, vec![2.0, 2.0]);
}

#[test]
fn test_differences_on_uneven_grid() {
    let grid_func = sampled(vec![0.0, 1.0, 4.0], vec![0.0, 2.0, 8.0]);
    assert_eq!(grid_func.forward_difference_derivative().function_values, vec![2.0, 2.0, 2.0]);
    assert_eq!(grid_func.central_difference_derivative().function_values, vec![2.0, 2.0, 2.0]);
}

#[test]
fn test_differences_ignore_surplus_values() {
    let grid_func = sampled(vec![0.0, 1.0, 2.0], vec![0.0, 1.0, 4.0, 100.0]);
    assert_eq!(grid_func.forward_difference_derivative().function_values, vec![1.0, 3.0, 3.0]);
    assert_eq!(grid_func.central_difference_derivative().function_values, vec![1.0, 2.0, 3.0]);
}

#[test]
fn test_differences_with_coinciding_points() {
    let grid_func = sampled(vec![0.0, 0.0, 1.0], vec![1.0, 2.0, 3.0]);
    let derivative = grid_func.forward_difference_derivative();
    assert_eq!(derivative.function_values[0], f64::INFINITY);
    assert_eq!(derivative.function_values[1], 1.0);
}

fn largest_interior_error(num_points: usize, func: fn(f64) -> f64, slope: fn(f64) -> f64) -> f64 {
    let grid: Grid<f64> = Grid::new_uniform_grid(0.0, 1.0, num_points);
    let derivative = GridFunction::new_grid_function(&grid, func).central_difference_derivative();
    let mut largest: f64 = 0.0;
    for i in 1..(num_points - 1) {
        let error = (derivative.function_values[i] - slope(grid.grid_points[i])).abs();
        if error > largest {
            largest = error;
        }
    }
    largest
}

#[test]
fn test_central_difference_of_square() {
    // Away from the ends, the central difference of a parabola is its slope.
    for num_points in [11usize, 21, 41, 81] {
        let error = largest_interior_error(num_points, |x| x * x, |x| 2.0 * x);
        assert!(error < 1e-12, "error {} with {} points", error, num_points);
    }
    // At the ends the one-sided difference is off by the spacing.
    let coarse: Grid<f64> = Grid::new_uniform_grid(0.0, 1.0, 11);
    let fine: Grid<f64> = Grid::new_uniform_grid(0.0, 1.0, 21);
    let coarse_derivative =
        GridFunction::new_grid_function(&coarse, |x| x * x).central_difference_derivative();
    let fine_derivative =
        GridFunction::new_grid_function(&fine, |x| x * x).central_difference_derivative();
    assert!((coarse_derivative.function_values[0] - 0.1).abs() < 1e-12);
    assert!((fine_derivative.function_values[0] - 0.05).abs() < 1e-12);
    assert!((coarse_derivative.function_values[10] - 1.9).abs() < 1e-12);
    assert!((fine_derivative.function_values[20] - 1.95).abs() < 1e-12);
}

#[test]
fn test_central_difference_converges_at_second_order() {
    // For a cubic the interior error is the square of the spacing.
    let coarse = largest_interior_error(11, |x| x * x * x, |x| 3.0 * x * x);
    let fine = largest_interior_error(21, |x| x * x * x, |x| 3.0 * x * x);
    let finer = largest_interior_error(41, |x| x * x * x, |x| 3.0 * x * x);
    assert!((coarse - 0.01).abs() < 1e-10);
    assert!((fine - 0.0025).abs() < 1e-10);
    assert!((finer - 0.000625).abs() < 1e-10);
    assert!((coarse / fine - 4.0).abs() < 1e-6);
    assert!((fine / finer - 4.0).abs() < 1e-6);
}

#[test]
fn test_forward_difference_converges_at_first_order() {
    let mut errors: Vec<f64> = Vec::new();
    for num_points in [11usize, 21] {
        let grid: Grid<f64> = Grid::new_uniform_grid(0.0, 1.0, num_points);
        let derivative = GridFunction::new_grid_function(&grid, |x| x * x)
            .forward_difference_derivative();
        errors.push((derivative.function_values[3] - 2.0 * grid.grid_points[3]).abs());
    }
    assert!((errors[0] - 0.1).abs() < 1e-12);
    assert!((errors[1] - 0.05).abs() < 1e-12);
}
