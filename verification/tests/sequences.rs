//! Linspace and knot-vector behaviour on concrete values.

use sand_spline::SCALE;
use sand_spline::linspace;
use sand_spline::set_knots;
use sand_spline::linspace::linspace_vec;

#[test]
fn linspace_basic_shape() {
    // 11 evenly spaced values from 0 to 10 units: length, endpoints,
    // strict monotonicity.
    let v = linspace_vec(0, 10 * SCALE, 11);
    assert_eq!(v.len(), 11);
    assert_eq!(v[0], 0);
    assert_eq!(v[10], 10 * SCALE);
    for k in 0..10 {
        assert!(v[k] < v[k + 1]);
    }
}

#[test]
fn linspace_single_element() {
    let v = linspace_vec(5, 99, 1);
    assert_eq!(v, vec![5]);
}

#[test]
fn linspace_descending() {
    let v = linspace_vec(100, 90, 5);
    assert_eq!(v, vec![100, 98, 96, 94, 92]);
    // The last element lies within n units of the far endpoint.
    assert!((v[4] - 90i64).abs() < 5);
}

#[test]
fn linspace_cursor_restarts() {
    // The cursor yields the same sequence as the collected vector and
    // ends with None.
    let mut cur = linspace(0, 4 * SCALE, 5);
    let v = linspace_vec(0, 4 * SCALE, 5);
    for k in 0..5 {
        assert_eq!(cur.next(), Some(v[k]));
    }
    assert_eq!(cur.next(), None);
    assert_eq!(cur.next(), None);
}

#[test]
fn knots_scenario_ten_points_degree_four() {
    // Degree 4, 10 points over [0, 10]: four zeros, six evenly spaced
    // interior values, five copies of the end; 15 entries in all.
    let v = set_knots((0, 10 * SCALE), 4, 10).unwrap();
    assert_eq!(v.len(), 15);
    let expected: Vec<i64> = vec![
        0, 0, 0, 0,
        0, 2 * SCALE, 4 * SCALE, 6 * SCALE, 8 * SCALE, 10 * SCALE,
        10 * SCALE, 10 * SCALE, 10 * SCALE, 10 * SCALE, 10 * SCALE,
    ];
    assert_eq!(v, expected);
    for k in 0..14 {
        assert!(v[k] <= v[k + 1]);
    }
}

#[test]
fn knots_idempotent() {
    let a = set_knots((0, 7 * SCALE), 3, 9).unwrap();
    let b = set_knots((0, 7 * SCALE), 3, 9).unwrap();
    assert_eq!(a, b);
}

#[test]
fn knots_rejects_too_few_points() {
    assert!(set_knots((0, SCALE), 4, 4).is_err());
    assert!(set_knots((0, SCALE), 4, 3).is_err());
    assert!(set_knots((0, SCALE), 4, 5).is_ok());
}
