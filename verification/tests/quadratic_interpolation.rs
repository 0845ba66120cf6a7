use bvp_solver::quadratic_interpolation::{
    quadratic_integral, quadratic_interpolation_coefficients,
};

fn parabola(x: f64) -> f64 {
    2.0 * x * x + 3.0 * x + 1.0
}

#[test]
fn test_coefficients_of_square() {
    let (a, b, c): (f64, f64, f64) =
        quadratic_interpolation_coefficients((0.0, 1.0, 2.0), (0.0, 1.0, 4.0));
    assert_eq!(a, 1.0);
    assert_eq!(b, 0.0);
    assert_eq!(c, 0.0);
}

#[test]
fn test_coefficients_reproduce_parabola() {
    let points: (f64, f64, f64) = (-1.0, 0.5, 2.0);
    let values = (parabola(points.0), parabola(points.1), parabola(points.2));
    let (a, b, c) = quadratic_interpolation_coefficients(points, values);
    assert!((a - 2.0).abs() < 1e-12);
    assert!((b - 3.0).abs() < 1e-12);
    assert!((c - 1.0).abs() < 1e-12);
}

#[test]
fn test_coefficients_of_line_and_constant() {
    let (a, b, c): (f64, f64, f64) =
        quadratic_interpolation_coefficients((1.0, 2.0, 4.0), (3.0, 5.0, 9.0));
    assert!(a.abs() < 1e-12);
    assert!((b - 2.0).abs() < 1e-12);
    assert!((c - 1.0).abs() < 1e-12);
    let (a, b, c): (f64, f64, f64) =
        quadratic_interpolation_coefficients((1.0, 2.0, 4.0), (7.0, 7.0, 7.0));
    assert!(a.abs() < 1e-12);
    assert!(b.abs() < 1e-12);
    assert!((c - 7.0).abs() < 1e-12);
}

#[test]
fn test_coefficients_do_not_depend_on_order() {
    let first: (f64, f64, f64) =
        quadratic_interpolation_coefficients((0.0, 1.0, 3.0), (1.0, 6.0, 28.0));
    let second: (f64, f64, f64) =
        quadratic_interpolation_coefficients((3.0, 0.0, 1.0), (28.0, 1.0, 6.0));
    assert!((first.0 - second.0).abs() < 1e-12);
    assert!((first.1 - second.1).abs() < 1e-12);
    assert!((first.2 - second.2).abs() < 1e-12);
}

#[test]
fn test_coefficients_with_coinciding_points() {
    let (a, b, c): (f64, f64, f64) =
        quadratic_interpolation_coefficients((1.0, 1.0, 2.0), (1.0, 2.0, 3.0));
    assert!(!a.is_finite());
    assert!(!b.is_finite());
    assert!(!c.is_finite());
}

#[test]
fn test_quadratic_integral_exact_values() {
    let integral: f64 = quadratic_integral((3.0, 2.0, 1.0), 0.0, 1.0);
    assert_eq!(integral, 3.0);
    let integral: f64 = quadratic_integral((3.0, 2.0, 1.0), 1.0, 2.0);
    assert_eq!(integral, 11.0);
    let integral: f64 = quadratic_integral((0.0, 0.0, 5.0), -1.0, 3.0);
    assert_eq!(integral, 20.0);
}

#[test]
fn test_quadratic_integral_of_parabola() {
    let integral: f64 = quadratic_integral((2.0, 3.0, 1.0), 0.0, 1.0);
    assert!((integral - (2.0 / 3.0 + 1.5 + 1.0)).abs() < 1e-12);
}

#[test]
fn test_quadratic_integral_turns_with_limits() {
    let there: f64 = quadratic_integral((2.0, 3.0, 1.0), 0.5, 2.0);
    let back: f64 = quadratic_integral((2.0, 3.0, 1.0), 2.0, 0.5);
    assert_eq!(there, -back);
    let nowhere: f64 = quadratic_integral((2.0, 3.0, 1.0), 0.5, 0.5);
    assert_eq!(nowhere, 0.0);
}
