use componentwise::matrix::Matrix;

fn rows(h: usize, w: usize, data: &[i32]) -> Matrix<i32> {
    Matrix::from_row_slice(h, w, data)
}

fn rows64(h: usize, w: usize, data: &[i64]) -> Matrix<i64> {
    Matrix::from_row_slice(h, w, data)
}

#[test]
fn gradient_none_when_too_small() {
    assert!(rows(2, 5, &[0; 10]).gradient().is_none());
    assert!(rows(5, 2, &[0; 10]).gradient().is_none());
    assert!(rows(0, 0, &[]).gradient().is_none());
    assert!(rows(3, 3, &[0; 9]).gradient().is_some());
}

#[test]
fn gradient_square() {
    let m = rows(3, 3, &[1, 2, 4, 2, 5, 8, 3, 7, 13]);
    let (gy, gx) = m.gradient().unwrap();
    assert_eq!(gy, rows64(3, 3, &[2, 7, 7, 2, 5, 9, 2, 3, 11]));
    assert_eq!(gx, rows64(3, 3, &[1, 3, 5, 6, 6, 6, 6, 10, 14]));
}

#[test]
fn gradient_taller_than_wide() {
    let m = rows(4, 3, &[1, 2, 4, 2, 5, 8, 3, 7, 13, 0, -1, 6]);
    let (gy, gx) = m.gradient().unwrap();
    assert_eq!(gy, rows64(4, 3, &[2, 7, 7, 2, 5, 9, -2, -6, -2, -10, -26, -26]));
    assert_eq!(gx, rows64(4, 3, &[1, 3, 5, 6, 6, 6, 6, 10, 14, -10, 6, 22]));
}

#[test]
fn gradient_wider_than_tall() {
    let m = rows(3, 5, &[1, 0, 2, 5, 3, 4, 4, 1, 0, -2, 9, 8, 7, 6, 5]);
    let (gy, gx) = m.gradient_unchecked();
    assert_eq!(gy, rows64(3, 5, &[4, 8, -9, -21, -22, 8, 8, 5, 1, 2, 12, 8, 19, 23, 26]));
    assert_eq!(gx, rows64(3, 5, &[-5, 1, 5, 1, -9, 3, -3, -4, -3, -5, -2, -2, -2, -2, -2]));
}

#[test]
fn gradient_exact_on_quadratic_columns() {
    // every column is 3y^2 - 2y + 5, whose derivative is 6y - 2
    let mut data = Vec::new();
    for y in 0..5i32 {
        for _x in 0..4 {
            data.push(3 * y * y - 2 * y + 5);
        }
    }
    let m = rows(5, 4, &data);
    let (gy, _gx) = m.gradient().unwrap();
    for y in 0..5usize {
        for x in 0..4usize {
            assert_eq!(gy.get(y, x), 2 * (6 * y as i64 - 2));
        }
    }
}

#[test]
fn gradient_exact_on_quadratic_rows() {
    // every row is -x^2 + 4x - 1, whose derivative is -2x + 4
    let mut data = Vec::new();
    for _y in 0..3 {
        for x in 0..6i32 {
            data.push(-x * x + 4 * x - 1);
        }
    }
    let m = rows(3, 6, &data);
    let (_gy, gx) = m.gradient().unwrap();
    for y in 0..3usize {
        for x in 0..6usize {
            assert_eq!(gx.get(y, x), 2 * (-2 * x as i64 + 4));
        }
    }
}

#[test]
fn gradient_of_constant_is_zero() {
    let m = rows(4, 4, &[7; 16]);
    let (gy, gx) = m.gradient().unwrap();
    assert_eq!(gy, rows64(4, 4, &[0; 16]));
    assert_eq!(gx, rows64(4, 4, &[0; 16]));
}

#[test]
fn gradient_at_extreme_values() {
    let m = rows(3, 3, &[i32::MIN, i32::MAX, i32::MIN, i32::MAX, i32::MIN, i32::MAX, i32::MIN, i32::MAX, i32::MIN]);
    let (gy, gx) = m.gradient().unwrap();
    let lo = i32::MIN as i64;
    let hi = i32::MAX as i64;
    assert_eq!(gy.get(0, 0), -3 * lo + 4 * hi - lo);
    assert_eq!(gx.get(1, 2), hi - 4 * lo + 3 * hi);
    assert_eq!(gy.get(1, 1), hi - hi);
}
