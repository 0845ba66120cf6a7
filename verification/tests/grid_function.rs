use bvp_solver::grid::Grid;
use bvp_solver::grid_function::GridFunction;

#[test]
fn test_new_grid_function() {
    // Test with the function sin(x).
    let grid = Grid::new_uniform_grid(0.0, 1.0, 6);
    let grid_func = GridFunction::new_grid_function(&grid, f64::sin);

    let expected_values: Vec<f64> =
        grid.grid_points.iter().map(|&x| f64::sin(x)).collect();
    assert_eq!(
        grid_func.function_values, expected_values,
        "new_grid_function failed to sample a sin function"
    );
    assert_eq!(
        grid_func.function_values.len(),
        grid.grid_points.len(),
        "new_grid_function failed to make function_values consistent with grid_points for a sin function"
    );

    // Test with the function 1/x.
    let grid_func = GridFunction::new_grid_function(&grid, |x| 1.0 / x);
    let expected_values: Vec<f64> =
        grid.grid_points.iter().map(|x| 1.0 / x).collect();
    assert_eq!(
        grid_func.function_values, expected_values,
        "new_grid_function failed to sample the function 1/x"
    );
    assert_eq!(
        grid_func.function_values.len(),
        grid.grid_points.len(),
        "new_grid_function failed to make function_values consistent with grid_points for a sin function"
    );
}

#[test]
fn test_new_constant_grid_function() {
    // Test with positive scalar.
    let grid = Grid::new_uniform_grid(0.0, 1.0, 6);
    let scalar = 2.0;
    let grid_func = GridFunction::new_constant_grid_function(&grid, scalar);

    let expected_values: Vec<f64> = vec![scalar; grid.grid_points.len()];
    assert_eq!(
        grid_func.function_values, expected_values,
        "new_constant_grid_function with non-zero scalar failed."
    );
    assert_eq!(
        grid_func.function_values.len(),
        grid.grid_points.len(),
        "new_constant_grid_function failed to make function_values consistent with grid_points for a positive scalar"
    );

    // Test with zero scalar.
    let scalar = 0.0;
    let grid_func = GridFunction::new_constant_grid_function(&grid, scalar);

    let expected_values: Vec<f64> = vec![scalar; grid.grid_points.len()];
    assert_eq!(
        grid_func.function_values, expected_values,
        "constant_grid_function with zero scalar failed."
    );
    assert_eq!(
        grid_func.function_values.len(),
        grid.grid_points.len(),
        "new_constant_grid_function failed to make function_values consistent with grid_points for a zero scalar"
    );

    // Test with negative scalar.
    let scalar = -2.0;
    let grid_func = GridFunction::new_constant_grid_function(&grid, scalar);

    let expected_values: Vec<f64> = vec![scalar; grid.grid_points.len()];
    assert_eq!(
        grid_func.function_values, expected_values,
        "constant_grid_function with negative scalar failed."
    );
    assert_eq!(
        grid_func.function_values.len(),
        grid.grid_points.len(),
        "new_constant_grid_function failed to make function_values consistent with grid_points for a negative scalar"
    );
}

#[test]
fn test_grid_function_debug() {
    let grid_points = vec![0.0, 1.0, 2.0, 3.0, 4.0, 5.0];
    let function_values = vec![0.0, 2.0, 4.0, 6.0, 8.0, 10.0];
    let grid = Grid {
        grid_points: grid_points.clone(),
    };
    let grid_func = GridFunction {
        grid,
        function_values: function_values.clone(),
    };

    let debug_str = format!("{:?}", grid_func);
    let expected_str = format!(
        "GridFunction {{ grid: Grid {{ grid_points: {:?} }}, function_values: {:?} }}",
        grid_points, function_values
    );
    assert_eq!(debug_str, expected_str, "Debug failed.");
}

#[test]
fn test_grid_function_clone() {
    let grid_points = vec![0.0, 1.0, 2.0, 3.0, 4.0, 5.0];
    let function_values = vec![0.0, 2.0, 4.0, 6.0, 8.0, 10.0];
    let grid = Grid { grid_points };
    let grid_func = GridFunction {
        grid,
        function_values,
    };

    let grid_func_clone = grid_func.clone();
    assert_eq!(grid_func.function_values, grid_func_clone.function_values);
    assert_eq!(
        grid_func.grid.grid_points, grid_func_clone.grid.grid_points,
        "Clone failed."
    );
}

#[test]
fn test_grid_function_partial_eq() {
    let grid_points = vec![0.0, 1.0, 2.0, 3.0, 4.0, 5.0];
    let function_values = vec![0.0, 2.0, 4.0, 6.0, 8.0, 10.0];
    let grid = Grid { grid_points };
    let grid_func_1 = GridFunction {
        grid: grid.clone(),
        function_values: function_values.clone(),
    };

    // Test equality with itself.
    assert_eq!(grid_func_1, grid_func_1, "Equality failed with itself.");

    // Test equality with a clone.
    let grid_func_clone = grid_func_1.clone();
    assert_eq!(
        grid_func_1, grid_func_clone,
        "Equality failed with a clone."
    );

    // Test equality with a GridFunction defined using new_grid_function.
    let grid_func_2 = GridFunction::new_grid_function(&grid, |x| 2.0 * x);
    assert_eq!(
        grid_func_1, grid_func_2,
        "Equality failed with a GridFunction defined using new_grid_function."
    );
}

#[test]
fn test_empty_grid() {
    let grid = Grid::new_uniform_grid(0.0, 1.0, 0);

    // Test new_grid_function.
    let grid_func = GridFunction::new_grid_function(&grid, f64::sin);
    assert!(
        grid_func.function_values.is_empty(),
        "new_grid_function failed with an empty grid."
    );

    // Test new_constant_grid_function
    let grid_func = GridFunction::new_constant_grid_function(&grid, 2.0);
    assert!(
        grid_func.function_values.is_empty(),
        "new_constant_grid_function failed with an empty grid."
    );
}

#[test]
fn test_sampling_keeps_grid() {
    let grid: Grid<f64> = Grid::new_uniform_grid(0.0, 1.0, 6);
    let grid_func = GridFunction::new_grid_function(&grid, |x| 3.0 * x + 1.0);
    assert_eq!(grid_func.grid, grid);
    for i in 0..6 {
        assert_eq!(grid_func.function_values[i], 3.0 * grid.grid_points[i] + 1.0);
    }
    let grid_func = GridFunction::new_constant_grid_function(&grid, 7.5);
    assert_eq!(grid_func.grid, grid);
    assert_eq!(grid_func.function_values, vec![7.5; 6]);
}

#[test]
fn test_clone_is_independent() {
    let grid: Grid<f64> = Grid::new_uniform_grid(0.0, 1.0, 3);
    let grid_func = GridFunction::new_constant_grid_function(&grid, 1.0);
    let mut copy = grid_func.clone();
    copy.function_values[0] = 9.0;
    copy.grid.grid_points[0] = 9.0;
    assert_eq!(grid_func.function_values, vec![1.0; 3]);
    assert_eq!(grid_func.grid, grid);
}
