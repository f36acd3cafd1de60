use componentwise::matrix::Matrix;

fn m2(a: i64, b: i64, c: i64, d: i64) -> Matrix<i64> {
    Matrix::from_row_slice(2, 2, &[a, b, c, d])
}

#[test]
fn abs_of_matrix2() {
    let a = m2(0, 1, -2, -3);
    assert_eq!(a.abs(), m2(0, 1, 2, 3));
}

#[test]
fn abs_is_idempotent_on_example() {
    let a = m2(-7, 7, 0, i64::MIN + 1);
    let once = a.abs();
    assert_eq!(once, m2(7, 7, 0, i64::MAX));
    assert_eq!(once.abs(), once);
}

#[test]
fn component_mul_matrix2() {
    let a = m2(0, 1, 2, 3);
    let b = m2(4, 5, 6, 7);
    assert_eq!(a.component_mul(&b), m2(0, 5, 12, 21));
}

#[test]
fn component_mul_is_commutative_on_example() {
    let a = m2(-3, 1, 2, 9);
    let b = m2(4, -5, 6, 7);
    assert_eq!(a.component_mul(&b), b.component_mul(&a));
}

#[test]
fn component_mul_assign_matrix2() {
    let mut a = m2(0, 1, 2, 3);
    let b = m2(4, 5, 6, 7);
    a.component_mul_assign(&b);
    assert_eq!(a, m2(0, 5, 12, 21));
}

#[test]
fn component_mul_mut_matrix2() {
    let mut a = m2(0, 1, 2, 3);
    let b = m2(4, 5, 6, 7);
    a.component_mul_mut(&b);
    assert_eq!(a, m2(0, 5, 12, 21));
}

#[test]
fn cmpy_matrix2() {
    let mut m = m2(0, 1, 2, 3);
    let a = m2(0, 1, 2, 3);
    let b = m2(4, 5, 6, 7);
    // 5 * (a .* b) + 10 * m
    m.cmpy(5, &a, &b, 10);
    assert_eq!(m, m2(0, 35, 80, 135));
}

#[test]
fn cmpy_with_zero_beta_is_scaled_product() {
    let mut m = m2(i64::MAX, i64::MIN, 1, -1);
    let a = m2(0, 1, 2, 3);
    let b = m2(4, 5, 6, 7);
    m.cmpy(1, &a, &b, 0);
    assert_eq!(m, a.component_mul(&b));
}

#[test]
fn component_div_matrix2() {
    let a = m2(0, 1, 2, 3);
    let b = m2(4, 5, 6, 7);
    assert_eq!(a.component_div(&b), m2(0, 0, 0, 0));
}

#[test]
fn component_div_rounds_toward_zero() {
    let a = m2(7, -7, 7, -7);
    let b = m2(2, 2, -2, -2);
    assert_eq!(a.component_div(&b), m2(3, -3, -3, 3));
}

#[test]
fn component_div_assign_matrix2() {
    let mut a = m2(12, 25, -18, 3);
    let b = m2(4, 5, 6, 7);
    a.component_div_assign(&b);
    assert_eq!(a, m2(3, 5, -3, 0));
}

#[test]
fn component_div_mut_matrix2() {
    let mut a = m2(12, 25, -18, 3);
    let b = m2(4, 5, 6, 7);
    a.component_div_mut(&b);
    assert_eq!(a, m2(3, 5, -3, 0));
}

#[test]
fn component_div_undoes_component_mul() {
    let a = m2(-3, 1, 0, 9);
    let b = m2(4, -5, 6, -1);
    assert_eq!(a.component_mul(&b).component_div(&b), a);
}

#[test]
fn cdpy_matrix2() {
    let mut m = m2(0, 1, 2, 3);
    let a = m2(4, 5, 6, 7);
    let b = m2(4, 5, 6, 7);
    // 5 * (a ./ b) + 10 * m
    m.cdpy(5, &a, &b, 10);
    assert_eq!(m, m2(5, 15, 25, 35));
}

#[test]
fn cdpy_with_zero_beta_is_scaled_quotient() {
    let mut m = m2(i64::MAX, i64::MIN, 1, -1);
    let a = m2(9, -9, 20, 3);
    let b = m2(2, 2, -3, 7);
    m.cdpy(1, &a, &b, 0);
    assert_eq!(m, a.component_div(&b));
}

#[test]
fn inf_matrix2() {
    let u = m2(4, 2, 1, -2);
    let v = m2(2, 4, -2, 1);
    assert_eq!(u.inf(&v), m2(2, 2, -2, -2));
}

#[test]
fn sup_matrix2() {
    let u = m2(4, 2, 1, -2);
    let v = m2(2, 4, -2, 1);
    assert_eq!(u.sup(&v), m2(4, 4, 1, 1));
}

#[test]
fn inf_sup_matrix2() {
    let u = m2(4, 2, 1, -2);
    let v = m2(2, 4, -2, 1);
    assert_eq!(u.inf_sup(&v), (m2(2, 2, -2, -2), m2(4, 4, 1, 1)));
}

#[test]
fn inf_and_sup_are_symmetric() {
    let u = m2(4, 2, 1, -2);
    let v = m2(2, 4, -2, 1);
    assert_eq!(u.inf(&v), v.inf(&u));
    assert_eq!(u.sup(&v), v.sup(&u));
    assert_eq!(u.inf(&u), u);
}

#[test]
fn add_scalar_matrix2() {
    let u = m2(1, 2, 3, 4);
    assert_eq!(u.add_scalar(10), m2(11, 12, 13, 14));
}

#[test]
fn add_scalar_mut_matrix2() {
    let mut u = m2(1, 2, 3, 4);
    u.add_scalar_mut(10);
    assert_eq!(u, m2(11, 12, 13, 14));
}

#[test]
fn add_scalar_then_opposite_restores() {
    let u = m2(1, -2, i64::MAX, 4);
    assert_eq!(u.add_scalar(-10).add_scalar(10), u);
}

#[test]
fn operations_on_rectangular_and_empty_matrices() {
    let a = Matrix::from_row_slice(2, 3, &[1i64, -2, 3, -4, 5, -6]);
    assert_eq!(a.abs(), Matrix::from_row_slice(2, 3, &[1, 2, 3, 4, 5, 6]));
    assert_eq!(a.shape(), (2, 3));
    let e: Matrix<i64> = Matrix::from_vec(0, 4, Vec::new());
    assert_eq!(e.add_scalar(3), Matrix::from_vec(0, 4, Vec::new()));
    assert_eq!(e.inf(&e).len(), 0);
}

#[test]
fn row_slice_and_column_vec_agree() {
    let a = Matrix::from_row_slice(2, 3, &[1i64, 2, 3, 4, 5, 6]);
    let b = Matrix::from_vec(2, 3, vec![1i64, 4, 2, 5, 3, 6]);
    assert_eq!(a, b);
    assert_eq!(a.get(1, 2), 6);
    assert_eq!(a.get(0, 1), 2);
    assert_eq!(a.as_slice(), &[1, 4, 2, 5, 3, 6]);
}
