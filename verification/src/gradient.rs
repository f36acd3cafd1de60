//! Second-order finite-difference gradient of an integer matrix.
//!
//! Every difference is kept at twice its value, so that it is an exact
//! integer: the gradient proper is each entry divided by two.
use vstd::prelude::*;
use crate::matrix::{Matrix, MatrixModel, lemma_pos_in_bounds, lemma_pos_div_mod};

verus! {

/// Twice the second-order forward difference at `x1`, from `x1, x2, x3`.
pub open spec fn forward_diff2(x1: int, x2: int, x3: int) -> int {
    -3 * x1 + 4 * x2 - x3
}

/// Twice the central difference at `x2`, from its neighbours `x1` and `x3`.
pub open spec fn central_diff2(x1: int, x3: int) -> int {
    x3 - x1
}

/// Twice the second-order backward difference at `x3`, from `x1, x2, x3`.
pub open spec fn backward_diff2(x1: int, x2: int, x3: int) -> int {
    x1 - 4 * x2 + 3 * x3
}

/// Twice the derivative along the rows (the `y` component) at `(y, x)`:
/// forward on the first row, backward on the last, central elsewhere.
pub open spec fn grad_y_at(m: MatrixModel<i32>, y: int, x: int) -> int {
    let h = m.nrows as int;
    if y == 0 {
        forward_diff2(m.at(0, x) as int, m.at(1, x) as int, m.at(2, x) as int)
    } else if y == h - 1 {
        backward_diff2(m.at(h - 3, x) as int, m.at(h - 2, x) as int, m.at(h - 1, x) as int)
    } else {
        central_diff2(m.at(y - 1, x) as int, m.at(y + 1, x) as int)
    }
}

/// Twice the derivative along the columns (the `x` component) at `(y, x)`:
/// forward on the first column, backward on the last, central elsewhere.
pub open spec fn grad_x_at(m: MatrixModel<i32>, y: int, x: int) -> int {
    let w = m.ncols as int;
    if x == 0 {
        forward_diff2(m.at(y, 0) as int, m.at(y, 1) as int, m.at(y, 2) as int)
    } else if x == w - 1 {
        backward_diff2(m.at(y, w - 3) as int, m.at(y, w - 2) as int, m.at(y, w - 1) as int)
    } else {
        central_diff2(m.at(y, x - 1) as int, m.at(y, x + 1) as int)
    }
}

/// `g` has the shape of `m` and holds twice its `y` gradient.
pub open spec fn is_grad_y(g: MatrixModel<i64>, m: MatrixModel<i32>) -> bool {
    &&& g.wf()
    &&& g.same_shape(m)
    &&& forall|y: int, x: int|
        0 <= y < m.nrows && 0 <= x < m.ncols ==> #[trigger] g.at(y, x) == grad_y_at(m, y, x)
}

/// `g` has the shape of `m` and holds twice its `x` gradient.
pub open spec fn is_grad_x(g: MatrixModel<i64>, m: MatrixModel<i32>) -> bool {
    &&& g.wf()
    &&& g.same_shape(m)
    &&& forall|y: int, x: int|
        0 <= y < m.nrows && 0 <= x < m.ncols ==> #[trigger] g.at(y, x) == grad_x_at(m, y, x)
}

/// The matrix is large enough for the second-order differences.
pub open spec fn gradient_defined(m: MatrixModel<i32>) -> bool {
    m.nrows >= 3 && m.ncols >= 3
}

impl Matrix<i32> {
    fn grad_y_entry(&self, y: usize, x: usize) -> (r: i64)
        requires
            3 <= self@.nrows,
            y < self@.nrows,
            x < self@.ncols,
        ensures
            r == grad_y_at(self@, y as int, x as int),
    {
        let h = self.nrows();
        if y == 0 {
            let a = self.get(0, x) as i64;
            let b = self.get(1, x) as i64;
            let c = self.get(2, x) as i64;
            -3 * a + 4 * b - c
        } else if y == h - 1 {
            let a = self.get(h - 3, x) as i64;
            let b = self.get(h - 2, x) as i64;
            let c = self.get(h - 1, x) as i64;
            a - 4 * b + 3 * c
        } else {
            let a = self.get(y - 1, x) as i64;
            let c = self.get(y + 1, x) as i64;
            c - a
        }
    }

    fn grad_x_entry(&self, y: usize, x: usize) -> (r: i64)
        requires
            3 <= self@.ncols,
            y < self@.nrows,
            x < self@.ncols,
        ensures
            r == grad_x_at(self@, y as int, x as int),
    {
        let w = self.ncols();
        if x == 0 {
            let a = self.get(y, 0) as i64;
            let b = self.get(y, 1) as i64;
            let c = self.get(y, 2) as i64;
            -3 * a + 4 * b - c
        } else if x == w - 1 {
            let a = self.get(y, w - 3) as i64;
            let b = self.get(y, w - 2) as i64;
            let c = self.get(y, w - 1) as i64;
            a - 4 * b + 3 * c
        } else {
            let a = self.get(y, x - 1) as i64;
            let c = self.get(y, x + 1) as i64;
            c - a
        }
    }

    /// Computes the gradient of `self` as the pair (`y` component, `x`
    /// component), each entry at twice its value, with second-order
    /// differences: central inside, forward or backward on the edges.
    /// Returns `None` when the matrix has fewer than 3 rows or columns.
    pub fn gradient(&self) -> (r: Option<(Matrix<i64>, Matrix<i64>)>)
        ensures
            r is None <==> !gradient_defined(self@),
            r matches Some(p) ==> is_grad_y(p.0@, self@) && is_grad_x(p.1@, self@),
    {
        let (h, w) = self.shape();
        if h < 3 || w < 3 {
            return None;
        }
        let mut gy: Vec<i64> = Vec::new();
        let mut gx: Vec<i64> = Vec::new();
        let mut j: usize = 0;
        while j < w
            invariant
                self@.nrows == h,
                self@.ncols == w,
                self@.wf(),
                3 <= h,
                3 <= w,
                j <= w,
                gy@.len() == j * h,
                gx@.len() == j * h,
                forall|k: int|
                    0 <= k < gy@.len() ==> #[trigger] gy@[k] == grad_y_at(self@, k % (h as int), k / (h as int)),
                forall|k: int|
                    0 <= k < gx@.len() ==> #[trigger] gx@[k] == grad_x_at(self@, k % (h as int), k / (h as int)),
            decreases w - j,
        {
            let mut i: usize = 0;
            while i < h
                invariant
                    self@.nrows == h,
                    self@.ncols == w,
                    self@.wf(),
                    3 <= h,
                    3 <= w,
                    j < w,
                    i <= h,
                    gy@.len() == j * h + i,
                    gx@.len() == j * h + i,
                    forall|k: int|
                        0 <= k < gy@.len() ==> #[trigger] gy@[k] == grad_y_at(self@, k % (h as int), k / (h as int)),
                    forall|k: int|
                        0 <= k < gx@.len() ==> #[trigger] gx@[k] == grad_x_at(self@, k % (h as int), k / (h as int)),
                decreases h - i,
            {
                proof {
                    lemma_pos_div_mod(h as int, i as int, j as int);
                }
                let vy = self.grad_y_entry(i, j);
                let vx = self.grad_x_entry(i, j);
                gy.push(vy);
                gx.push(vx);
                i = i + 1;
            }
            proof {
                assert((j + 1) * h == j * h + h) by (nonlinear_arith);
            }
            j = j + 1;
        }
        proof {
            assert(gy@.len() == h * w) by {
                assert(w * h == h * w) by (nonlinear_arith);
            }
        }
        let ghost m = self@;
        let grad_y = Matrix::from_vec(h, w, gy);
        let grad_x = Matrix::from_vec(h, w, gx);
        proof {
            assert forall|y: int, x: int|
                #![trigger grad_y@.at(y, x)]
                #![trigger grad_x@.at(y, x)]
                0 <= y < h && 0 <= x < w implies
                grad_y@.at(y, x) == grad_y_at(m, y, x)
                    && grad_x@.at(y, x) == grad_x_at(m, y, x) by {
                lemma_pos_div_mod(h as int, y, x);
                lemma_pos_in_bounds(h as int, w as int, y, x);
            }
        }
        Some((grad_y, grad_x))
    }

    /// Same as [`Matrix::gradient`], for a matrix known to have at least 3
    /// rows and 3 columns.
    pub fn gradient_unchecked(&self) -> (r: (Matrix<i64>, Matrix<i64>))
        requires
            gradient_defined(self@),
        ensures
            is_grad_y(r.0@, self@),
            is_grad_x(r.1@, self@),
    {
        match self.gradient() {
            Some(p) => p,
            None => {
                proof { assert(false); }
                (Matrix::from_vec(0, 0, Vec::new()), Matrix::from_vec(0, 0, Vec::new()))
            },
        }
    }
}

} // verus!
