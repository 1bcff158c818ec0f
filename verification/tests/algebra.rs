use raytracing::algebra::{partial_pivot, select_pivot, swap_items};
use raytracing::Scalar;

fn num(x: f64) -> Scalar {
    Scalar::from_bits(x.to_bits()).unwrap()
}

fn val(s: Scalar) -> f64 {
    f64::from_bits(s.to_bits())
}

fn matrix(rows: &[Vec<f64>]) -> Vec<Vec<Scalar>> {
    rows.iter().map(|r| r.iter().map(|x| num(*x)).collect()).collect()
}

fn floats(rows: &[Vec<Scalar>]) -> Vec<Vec<f64>> {
    rows.iter().map(|r| r.iter().map(|x| val(*x)).collect()).collect()
}

// Gaussian elimination on doubles, the pivoting left to the library.
fn solve_equation(coef: Vec<Vec<f64>>, rhs: Vec<f64>) -> Vec<f64> {
    let n = coef.len();
    let mut coef = matrix(&coef);
    let mut rhs: Vec<Scalar> = rhs.iter().map(|x| num(*x)).collect();
    for step in 0..n {
        partial_pivot(&mut coef, &mut rhs, step);
        for r in (step + 1)..n {
            let scale = val(coef[r][step]) / val(coef[step][step]);
            for c in step..n {
                coef[r][c] = num(val(coef[r][c]) - scale * val(coef[step][c]));
            }
            rhs[r] = num(val(rhs[r]) - scale * val(rhs[step]));
        }
    }
    let mut ans = vec![0.0; n];
    for step in (0..n).rev() {
        let mut right = val(rhs[step]);
        for r in (step + 1)..n {
            right -= val(coef[step][r]) * ans[r];
        }
        ans[step] = right / val(coef[step][step]);
    }
    ans
}

#[test]
fn e1() {
    let coef = vec![
        vec![6.0, 2.0, -1.0],
        vec![-3.0, 5.0, 3.0],
        vec![-2.0, 1.0, 3.0],
    ];
    let rhs = vec![48.0, 49.0, 24.0];
    let ans = solve_equation(coef.clone(), rhs.clone());

    for (r, row) in coef.iter().enumerate() {
        let left: f64 = row.iter().zip(ans.iter()).map(|(x, y)| x * y).sum();
        assert!((left - rhs[r]).abs() < 1e-4);
    }
}

#[test]
fn solver_needs_its_pivoting() {
    // Without an exchange of rows the first step would divide by zero.
    let coef = vec![
        vec![0.0, 2.0, 1.0],
        vec![1.0, 1.0, 1.0],
        vec![4.0, -1.0, 2.0],
    ];
    let rhs = vec![7.0, 6.0, 8.0];
    let ans = solve_equation(coef.clone(), rhs.clone());
    for (r, row) in coef.iter().enumerate() {
        let left: f64 = row.iter().zip(ans.iter()).map(|(x, y)| x * y).sum();
        assert!((left - rhs[r]).abs() < 1e-9);
    }
}

#[test]
fn solver_on_many_systems() {
    let mut seed: u64 = 42;
    let mut next = move || {
        seed = seed.wrapping_mul(6364136223846793005).wrapping_add(1442695040888963407);
        ((seed >> 11) as f64 / (1u64 << 53) as f64) * 20.0 - 10.0
    };
    for _ in 0..100 {
        let coef: Vec<Vec<f64>> = (0..3).map(|_| (0..3).map(|_| next()).collect()).collect();
        let det = coef[0][0] * (coef[1][1] * coef[2][2] - coef[1][2] * coef[2][1])
            - coef[0][1] * (coef[1][0] * coef[2][2] - coef[1][2] * coef[2][0])
            + coef[0][2] * (coef[1][0] * coef[2][1] - coef[1][1] * coef[2][0]);
        if det.abs() < 1.0 {
            continue;
        }
        let rhs: Vec<f64> = (0..3).map(|_| next()).collect();
        let ans = solve_equation(coef.clone(), rhs.clone());
        for (r, row) in coef.iter().enumerate() {
            let left: f64 = row.iter().zip(ans.iter()).map(|(x, y)| x * y).sum();
            assert!((left - rhs[r]).abs() < 1e-6);
        }
    }
}

#[test]
fn pivot_is_the_largest_in_absolute_value() {
    let coef = matrix(&[
        vec![1.0, 9.0, 9.0],
        vec![-7.0, 9.0, 9.0],
        vec![3.0, 9.0, 9.0],
    ]);
    assert_eq!(select_pivot(&coef, 0), 1);
    let coef = matrix(&[
        vec![100.0, 1.0, 0.0],
        vec![0.0, 2.0, 0.0],
        vec![0.0, -3.0, 0.0],
    ]);
    assert_eq!(select_pivot(&coef, 1), 2);
    assert_eq!(select_pivot(&coef, 2), 2);
}

#[test]
fn pivot_is_the_last_of_equals() {
    let coef = matrix(&[
        vec![2.0, 0.0, 0.0],
        vec![-2.0, 0.0, 0.0],
        vec![1.0, 0.0, 0.0],
    ]);
    assert_eq!(select_pivot(&coef, 0), 1);
    let coef = matrix(&[
        vec![0.0, 0.0],
        vec![0.0, 0.0],
    ]);
    assert_eq!(select_pivot(&coef, 0), 1);
}

#[test]
fn partial_pivot_exchanges_rows_and_right_hand_side() {
    let mut coef = matrix(&[
        vec![1.0, 2.0, 3.0],
        vec![-4.0, 5.0, 6.0],
        vec![-9.0, 8.0, 7.0],
    ]);
    let mut rhs = vec![num(10.0), num(20.0), num(30.0)];
    let pivot = partial_pivot(&mut coef, &mut rhs, 0);
    assert_eq!(pivot, 2);
    assert_eq!(
        floats(&coef),
        vec![vec![-9.0, 8.0, 7.0], vec![-4.0, 5.0, 6.0], vec![1.0, 2.0, 3.0]]
    );
    assert_eq!(rhs.iter().map(|x| val(*x)).collect::<Vec<_>>(), vec![30.0, 20.0, 10.0]);
    let pivot = partial_pivot(&mut coef, &mut rhs, 1);
    assert_eq!(pivot, 1);
    assert_eq!(rhs.iter().map(|x| val(*x)).collect::<Vec<_>>(), vec![30.0, 20.0, 10.0]);
}

#[test]
fn swap_items_exchanges_two_places() {
    let mut v = vec!['a', 'b', 'c', 'd'];
    swap_items(&mut v, 0, 3);
    assert_eq!(v, vec!['d', 'b', 'c', 'a']);
    swap_items(&mut v, 2, 1);
    assert_eq!(v, vec!['d', 'c', 'b', 'a']);
    swap_items(&mut v, 2, 2);
    assert_eq!(v, vec!['d', 'c', 'b', 'a']);
}

#[test]
fn solver_on_nearly_singular_systems() {
    // Two rows that differ by one part in ten million: the pivoting keeps the
    // residual small although the solution is large.
    for eps in [1.0e-7, 1.0e-8, 1.0e-9] {
        let coef = vec![
            vec![1.0e-10, 1.0, 1.0],
            vec![1.0, 2.0, 3.0],
            vec![1.0, 2.0, 3.0 + eps],
        ];
        let rhs = vec![1.0, 2.0, 3.0];
        let ans = solve_equation(coef.clone(), rhs.clone());
        for (r, row) in coef.iter().enumerate() {
            let left: f64 = row.iter().zip(ans.iter()).map(|(x, y)| x * y).sum();
            assert!(left.is_finite());
            assert!((left - rhs[r]).abs() < 1e-3);
        }
    }
}
