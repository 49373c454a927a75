use verlet_solver::fixed::SCALE;
use verlet_solver::linalg::{
    conjugate_gradient, diag_inverse, dot, mat_mul, mat_vec, norm, transpose, zeros, CG_MAX_ITERS,
};

fn fx(units: i64) -> i64 {
    units * SCALE
}

#[test]
fn zeros_has_the_requested_length() {
    let z = zeros(5);
    assert_eq!(z.len(), 5);
    assert!(z.iter().all(|&v| v == 0));
}

#[test]
fn dot_product_is_exact_on_whole_units() {
    let a = vec![fx(1), fx(2), fx(3)];
    let b = vec![fx(4), fx(-5), fx(6)];
    // 4 - 10 + 18 == 12
    assert_eq!(dot(&a, &b), fx(12));
}

#[test]
fn transpose_swaps_rows_and_columns() {
    let m = vec![vec![1, 2, 3], vec![4, 5, 6]];
    let t = transpose(&m, 3);
    assert_eq!(t, vec![vec![1, 4], vec![2, 5], vec![3, 6]]);
}

#[test]
fn matrix_product_of_whole_units_is_exact() {
    let a = vec![vec![fx(1), fx(2)], vec![fx(3), fx(4)]];
    let b = vec![vec![fx(5), fx(6)], vec![fx(7), fx(8)]];
    let c = mat_mul(&a, &b, 2);
    assert_eq!(c, vec![vec![fx(19), fx(22)], vec![fx(43), fx(50)]]);
}

#[test]
fn matrix_vector_product_is_exact() {
    let m = vec![vec![fx(1), fx(2)], vec![fx(3), fx(4)]];
    let v = vec![fx(5), fx(6)];
    assert_eq!(mat_vec(&m, &v), vec![fx(17), fx(39)]);
}

#[test]
fn diagonal_inverse_takes_reciprocals() {
    let d = vec![fx(2), fx(4), SCALE / 2];
    let w = diag_inverse(&d);
    assert_eq!(w, vec![SCALE / 2, SCALE / 4, fx(2)]);
}

#[test]
fn norm_of_a_three_four_vector_is_five() {
    let v = vec![fx(3), fx(4)];
    assert_eq!(norm(&v), fx(5));
}

#[test]
fn conjugate_gradient_solves_a_known_spd_system() {
    // A = [[4,1,0],[1,3,0],[0,0,2]], b = [1,2,3]:
    // solution (1/11, 7/11, 3/2).
    let a = vec![
        vec![fx(4), fx(1), 0],
        vec![fx(1), fx(3), 0],
        vec![0, 0, fx(2)],
    ];
    let b = vec![fx(1), fx(2), fx(3)];
    let x0 = zeros(3);
    let (x, iters) = conjugate_gradient(&a, &b, &x0);
    assert!(iters < CG_MAX_ITERS, "cold start used the whole cap: {iters}");
    let sol = [
        (SCALE as i128 / 11) as i64,
        (7 * SCALE as i128 / 11) as i64,
        SCALE + SCALE / 2,
    ];
    // within 1e-4 logical units
    let tol = (SCALE as i128 / 10000) as i64;
    for k in 0..3 {
        assert!(
            (x[k] - sol[k]).abs() <= tol,
            "component {k}: got {} want {}",
            x[k],
            sol[k]
        );
    }
}

#[test]
fn warm_start_converges_in_strictly_fewer_iterations() {
    let a = vec![
        vec![fx(4), fx(1), 0],
        vec![fx(1), fx(3), 0],
        vec![0, 0, fx(2)],
    ];
    let b = vec![fx(1), fx(2), fx(3)];
    let cold_seed = zeros(3);
    let (cold_x, cold_iters) = conjugate_gradient(&a, &b, &cold_seed);
    let (_, warm_iters) = conjugate_gradient(&a, &b, &cold_x);
    assert!(
        warm_iters < cold_iters,
        "warm {warm_iters} not below cold {cold_iters}"
    );
}
