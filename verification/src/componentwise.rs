//! Componentwise operations on integer matrices: absolute value, products
//! and quotients, `cmpy`/`cdpy` accumulations, infimum and supremum, and the
//! addition of a scalar.
use vstd::prelude::*;
use crate::matrix::{Matrix, MatrixModel};
use crate::scalar::{abs_int, min_int, max_int, signed_abs, is_zero, simd_min, simd_max};

verus! {

/// `x` is a value of `i64`.
pub open spec fn fits_i64(x: int) -> bool {
    i64::MIN <= x <= i64::MAX
}

/// Integer division rounded toward zero, as Rust's `/` on signed integers.
pub open spec fn div_trunc(a: int, b: int) -> int {
    let q = abs_int(a) / abs_int(b);
    if (a < 0) == (b < 0) { q } else { -q }
}

/// The matrix whose flat entries are `f` of the flat positions of `m`'s shape.
pub open spec fn with_entries(m: MatrixModel<i64>, f: spec_fn(int) -> int) -> MatrixModel<i64> {
    MatrixModel { nrows: m.nrows, ncols: m.ncols, data: Seq::new(m.data.len(), |k: int| f(k) as i64) }
}

/// Entrywise absolute value.
pub open spec fn abs_of(m: MatrixModel<i64>) -> MatrixModel<i64> {
    with_entries(m, |k: int| abs_int(m.data[k] as int))
}

/// Entrywise product.
pub open spec fn mul_of(a: MatrixModel<i64>, b: MatrixModel<i64>) -> MatrixModel<i64> {
    with_entries(a, |k: int| a.data[k] * b.data[k])
}

/// Entrywise quotient, rounded toward zero.
pub open spec fn div_of(a: MatrixModel<i64>, b: MatrixModel<i64>) -> MatrixModel<i64> {
    with_entries(a, |k: int| div_trunc(a.data[k] as int, b.data[k] as int))
}

/// Entrywise `alpha * (a * b) + beta * m`.
pub open spec fn mul_accumulate_of(m: MatrixModel<i64>, alpha: i64, a: MatrixModel<i64>, b: MatrixModel<i64>, beta: i64) -> MatrixModel<i64> {
    with_entries(m, |k: int| alpha * (a.data[k] * b.data[k]) + beta * m.data[k])
}

/// Entrywise `alpha * (a / b) + beta * m`, the quotient rounded toward zero.
pub open spec fn div_accumulate_of(m: MatrixModel<i64>, alpha: i64, a: MatrixModel<i64>, b: MatrixModel<i64>, beta: i64) -> MatrixModel<i64> {
    with_entries(m, |k: int| alpha * div_trunc(a.data[k] as int, b.data[k] as int) + beta * m.data[k])
}

/// Entrywise minimum.
pub open spec fn inf_of(a: MatrixModel<i64>, b: MatrixModel<i64>) -> MatrixModel<i64> {
    with_entries(a, |k: int| min_int(a.data[k] as int, b.data[k] as int))
}

/// Entrywise maximum.
pub open spec fn sup_of(a: MatrixModel<i64>, b: MatrixModel<i64>) -> MatrixModel<i64> {
    with_entries(a, |k: int| max_int(a.data[k] as int, b.data[k] as int))
}

/// `s` added to every entry.
pub open spec fn add_scalar_of(m: MatrixModel<i64>, s: i64) -> MatrixModel<i64> {
    with_entries(m, |k: int| m.data[k] + s)
}

/// No entry is `i64::MIN`, whose absolute value overflows.
pub open spec fn abs_defined(m: MatrixModel<i64>) -> bool {
    forall|k: int| 0 <= k < m.data.len() ==> #[trigger] m.data[k] != i64::MIN
}

/// Same shape, and no entrywise product overflows.
pub open spec fn mul_defined(a: MatrixModel<i64>, b: MatrixModel<i64>) -> bool {
    &&& a.same_shape(b)
    &&& forall|k: int| 0 <= k < a.data.len() ==> fits_i64(#[trigger] a.data[k] * b.data[k])
}

/// `x / y` neither divides by zero nor overflows.
pub open spec fn quot_defined(x: i64, y: i64) -> bool {
    y != 0 && !(x == i64::MIN && y == -1)
}

/// Same shape, and every entrywise quotient is defined.
pub open spec fn div_defined(a: MatrixModel<i64>, b: MatrixModel<i64>) -> bool {
    &&& a.same_shape(b)
    &&& forall|k: int| 0 <= k < a.data.len() ==> #[trigger] quot_defined(a.data[k], b.data[k])
}

/// `alpha * p + beta * x` overflows at no step.
pub open spec fn accumulate_defined(alpha: i64, p: int, beta: i64, x: i64) -> bool {
    &&& fits_i64(p)
    &&& fits_i64(alpha * p)
    &&& fits_i64(beta * x)
    &&& fits_i64(alpha * p + beta * x)
}

/// Same shapes, and `alpha * (a * b) + beta * m` overflows at no step.
pub open spec fn mul_accumulate_defined(m: MatrixModel<i64>, alpha: i64, a: MatrixModel<i64>, b: MatrixModel<i64>, beta: i64) -> bool {
    &&& m.same_shape(a)
    &&& m.same_shape(b)
    &&& forall|k: int| 0 <= k < m.data.len() ==>
        #[trigger] accumulate_defined(alpha, a.data[k] * b.data[k], beta, m.data[k])
}

/// Same shapes, every quotient `a / b` defined, and `alpha * (a / b) + beta * m`
/// overflows at no step.
pub open spec fn div_accumulate_defined(m: MatrixModel<i64>, alpha: i64, a: MatrixModel<i64>, b: MatrixModel<i64>, beta: i64) -> bool {
    &&& m.same_shape(a)
    &&& m.same_shape(b)
    &&& forall|k: int| 0 <= k < m.data.len() ==> #[trigger] quot_defined(a.data[k], b.data[k])
        && accumulate_defined(alpha, div_trunc(a.data[k] as int, b.data[k] as int), beta, m.data[k])
}

/// No entry overflows when `s` is added to it.
pub open spec fn add_scalar_defined(m: MatrixModel<i64>, s: i64) -> bool {
    forall|k: int| 0 <= k < m.data.len() ==> fits_i64(#[trigger] m.data[k] + s)
}

proof fn lemma_quot_bound(x: int, d: int)
    requires
        x >= 0,
        d >= 1,
    ensures
        0 <= x / d <= x,
        d >= 2 && x > 0 ==> x / d < x,
{
    assert(0 <= x / d <= x) by (nonlinear_arith)
        requires
            x >= 0,
            d >= 1,
    ;
    assert(d >= 2 && x > 0 ==> x / d < x) by (nonlinear_arith)
        requires
            x >= 0,
            d >= 1,
    ;
}

/// `x / y` rounded toward zero.
fn quot(x: i64, y: i64) -> (r: i64)
    requires
        quot_defined(x, y),
    ensures
        r == div_trunc(x as int, y as int),
{
    proof {
        lemma_quot_bound(abs_int(x as int), abs_int(y as int));
        assert(x as int * -1 == -(x as int));
        assert(y as int * -1 == -(y as int));
    }
    match x.checked_div(y) {
        Some(q) => q,
        None => {
            proof { assert(false); }
            0
        }
    }
}

impl Matrix<i64> {
    /// Computes the componentwise absolute value.
    pub fn abs(&self) -> (r: Matrix<i64>)
        requires
            abs_defined(self@),
        ensures
            r@ == abs_of(self@),
    {
        let mut res = self.clone_owned();
        let n = res.len();
        for k in 0..n
            invariant
                n == res@.data.len(),
                n == self@.data.len(),
                res@.nrows == self@.nrows,
                res@.ncols == self@.ncols,
                abs_defined(self@),
                forall|q: int| 0 <= q < k ==> #[trigger] res@.data[q] == abs_int(self@.data[q] as int),
                forall|q: int| k <= q < n ==> #[trigger] res@.data[q] == self@.data[q],
        {
            let e = res.get_flat(k);
            res.set_flat(k, signed_abs(e));
        }
        assert(res@.data == abs_of(self@).data);
        res
    }
}


impl Matrix<i64> {
    /// Inplace componentwise product: `self[k] = self[k] * rhs[k]`.
    pub fn component_mul_assign(&mut self, rhs: &Matrix<i64>)
        requires
            mul_defined(old(self)@, rhs@),
        ensures
            final(self)@ == mul_of(old(self)@, rhs@),
    {
        let ghost m0 = self@;
        let n = self.len();
        let rn = rhs.len();
        assert(rn == n);
        for k in 0..n
            invariant
                n == self@.data.len(),
                n == rhs@.data.len(),
                self@.nrows == m0.nrows,
                self@.ncols == m0.ncols,
                m0.data.len() == n,
                mul_defined(m0, rhs@),
                forall|q: int| 0 <= q < k ==> #[trigger] self@.data[q] == m0.data[q] * rhs@.data[q],
                forall|q: int| k <= q < n ==> #[trigger] self@.data[q] == m0.data[q],
        {
            let x = self.get_flat(k);
            let y = rhs.get_flat(k);
            assert(fits_i64(m0.data[k as int] * rhs@.data[k as int]));
            self.set_flat(k, x * y);
        }
        assert(self@.data == mul_of(m0, rhs@).data);
    }

    /// Inplace componentwise product; the same as
    /// [`Matrix::component_mul_assign`], under its former name.
    pub fn component_mul_mut(&mut self, rhs: &Matrix<i64>)
        requires
            mul_defined(old(self)@, rhs@),
        ensures
            final(self)@ == mul_of(old(self)@, rhs@),
    {
        self.component_mul_assign(rhs)
    }

    /// Componentwise product of two matrices of the same shape.
    pub fn component_mul(&self, rhs: &Matrix<i64>) -> (r: Matrix<i64>)
        requires
            mul_defined(self@, rhs@),
        ensures
            r@ == mul_of(self@, rhs@),
    {
        let mut res = self.clone_owned();
        res.component_mul_assign(rhs);
        res
    }

    /// Inplace componentwise quotient, rounded toward zero:
    /// `self[k] = self[k] / rhs[k]`.
    pub fn component_div_assign(&mut self, rhs: &Matrix<i64>)
        requires
            div_defined(old(self)@, rhs@),
        ensures
            final(self)@ == div_of(old(self)@, rhs@),
    {
        let ghost m0 = self@;
        let n = self.len();
        let rn = rhs.len();
        assert(rn == n);
        for k in 0..n
            invariant
                n == self@.data.len(),
                n == rhs@.data.len(),
                self@.nrows == m0.nrows,
                self@.ncols == m0.ncols,
                m0.data.len() == n,
                div_defined(m0, rhs@),
                forall|q: int| 0 <= q < k ==>
                    #[trigger] self@.data[q] == div_trunc(m0.data[q] as int, rhs@.data[q] as int),
                forall|q: int| k <= q < n ==> #[trigger] self@.data[q] == m0.data[q],
        {
            let x = self.get_flat(k);
            let y = rhs.get_flat(k);
            assert(quot_defined(m0.data[k as int], rhs@.data[k as int]));
            self.set_flat(k, quot(x, y));
        }
        assert(self@.data == div_of(m0, rhs@).data);
    }

    /// Inplace componentwise quotient; the same as
    /// [`Matrix::component_div_assign`], under its former name.
    pub fn component_div_mut(&mut self, rhs: &Matrix<i64>)
        requires
            div_defined(old(self)@, rhs@),
        ensures
            final(self)@ == div_of(old(self)@, rhs@),
    {
        self.component_div_assign(rhs)
    }

    /// Componentwise quotient, rounded toward zero, of two matrices of the
    /// same shape.
    pub fn component_div(&self, rhs: &Matrix<i64>) -> (r: Matrix<i64>)
        requires
            div_defined(self@, rhs@),
        ensures
            r@ == div_of(self@, rhs@),
    {
        let mut res = self.clone_owned();
        res.component_div_assign(rhs);
        res
    }

    /// Computes componentwise `self[k] = alpha * (a[k] * b[k]) + beta * self[k]`.
    /// When `beta` is zero the old entries of `self` are not read.
    pub fn cmpy(&mut self, alpha: i64, a: &Matrix<i64>, b: &Matrix<i64>, beta: i64)
        requires
            mul_accumulate_defined(old(self)@, alpha, a@, b@, beta),
        ensures
            final(self)@ == mul_accumulate_of(old(self)@, alpha, a@, b@, beta),
    {
        self.mul_accumulate(alpha, a, b, beta)
    }

    /// The loop behind [`Matrix::cmpy`].
    fn mul_accumulate(&mut self, alpha: i64, a: &Matrix<i64>, b: &Matrix<i64>, beta: i64)
        requires
            mul_accumulate_defined(old(self)@, alpha, a@, b@, beta),
        ensures
            final(self)@ == mul_accumulate_of(old(self)@, alpha, a@, b@, beta),
    {
        let ghost m0 = self@;
        let n = self.len();
        let an = a.len();
        let bn = b.len();
        assert(an == n && bn == n);
        let beta_is_zero = is_zero(beta);
        for k in 0..n
            invariant
                n == self@.data.len(),
                n == a@.data.len(),
                n == b@.data.len(),
                self@.nrows == m0.nrows,
                self@.ncols == m0.ncols,
                m0.data.len() == n,
                beta_is_zero == (beta == 0),
                mul_accumulate_defined(m0, alpha, a@, b@, beta),
                forall|q: int| 0 <= q < k ==>
                    #[trigger] self@.data[q] == alpha * (a@.data[q] * b@.data[q]) + beta * m0.data[q],
                forall|q: int| k <= q < n ==> #[trigger] self@.data[q] == m0.data[q],
        {
            let x = a.get_flat(k);
            let y = b.get_flat(k);
            assert(accumulate_defined(alpha, a@.data[k as int] * b@.data[k as int], beta, m0.data[k as int]));
            let res = alpha * (x * y);
            if beta_is_zero {
                self.set_flat(k, res);
            } else {
                let s = self.get_flat(k);
                self.set_flat(k, beta * s + res);
            }
        }
        assert(self@.data == mul_accumulate_of(m0, alpha, a@, b@, beta).data);
    }

    /// Computes componentwise `self[k] = alpha * (a[k] / b[k]) + beta * self[k]`,
    /// the quotient rounded toward zero. When `beta` is zero the old entries of
    /// `self` are not read.
    pub fn cdpy(&mut self, alpha: i64, a: &Matrix<i64>, b: &Matrix<i64>, beta: i64)
        requires
            div_accumulate_defined(old(self)@, alpha, a@, b@, beta),
        ensures
            final(self)@ == div_accumulate_of(old(self)@, alpha, a@, b@, beta),
    {
        self.div_accumulate(alpha, a, b, beta)
    }

    /// The loop behind [`Matrix::cdpy`].
    fn div_accumulate(&mut self, alpha: i64, a: &Matrix<i64>, b: &Matrix<i64>, beta: i64)
        requires
            div_accumulate_defined(old(self)@, alpha, a@, b@, beta),
        ensures
            final(self)@ == div_accumulate_of(old(self)@, alpha, a@, b@, beta),
    {
        let ghost m0 = self@;
        let n = self.len();
        let an = a.len();
        let bn = b.len();
        assert(an == n && bn == n);
        let beta_is_zero = is_zero(beta);
        for k in 0..n
            invariant
                n == self@.data.len(),
                n == a@.data.len(),
                n == b@.data.len(),
                self@.nrows == m0.nrows,
                self@.ncols == m0.ncols,
                m0.data.len() == n,
                beta_is_zero == (beta == 0),
                div_accumulate_defined(m0, alpha, a@, b@, beta),
                forall|q: int| 0 <= q < k ==>
                    #[trigger] self@.data[q] == alpha * div_trunc(a@.data[q] as int, b@.data[q] as int)
                        + beta * m0.data[q],
                forall|q: int| k <= q < n ==> #[trigger] self@.data[q] == m0.data[q],
        {
            let x = a.get_flat(k);
            let y = b.get_flat(k);
            assert(quot_defined(a@.data[k as int], b@.data[k as int]));
            assert(accumulate_defined(alpha, div_trunc(a@.data[k as int] as int, b@.data[k as int] as int), beta, m0.data[k as int]));
            let res = alpha * quot(x, y);
            if beta_is_zero {
                self.set_flat(k, res);
            } else {
                let s = self.get_flat(k);
                self.set_flat(k, beta * s + res);
            }
        }
        assert(self@.data == div_accumulate_of(m0, alpha, a@, b@, beta).data);
    }

    /// Computes the infimum (componentwise minimum) of two matrices of the
    /// same shape.
    pub fn inf(&self, other: &Matrix<i64>) -> (r: Matrix<i64>)
        requires
            self@.same_shape(other@),
        ensures
            r@ == inf_of(self@, other@),
    {
        let n = self.len();
        let on = other.len();
        assert(on == n);
        let mut res = self.clone_owned();
        for k in 0..n
            invariant
                n == res@.data.len(),
                n == self@.data.len(),
                n == other@.data.len(),
                res@.nrows == self@.nrows,
                res@.ncols == self@.ncols,
                forall|q: int| 0 <= q < k ==>
                    #[trigger] res@.data[q] == min_int(self@.data[q] as int, other@.data[q] as int),
                forall|q: int| k <= q < n ==> #[trigger] res@.data[q] == self@.data[q],
        {
            let x = self.get_flat(k);
            let y = other.get_flat(k);
            res.set_flat(k, simd_min(x, y));
        }
        assert(res@.data == inf_of(self@, other@).data);
        res
    }

    /// Computes the supremum (componentwise maximum) of two matrices of the
    /// same shape.
    pub fn sup(&self, other: &Matrix<i64>) -> (r: Matrix<i64>)
        requires
            self@.same_shape(other@),
        ensures
            r@ == sup_of(self@, other@),
    {
        let n = self.len();
        let on = other.len();
        assert(on == n);
        let mut res = self.clone_owned();
        for k in 0..n
            invariant
                n == res@.data.len(),
                n == self@.data.len(),
                n == other@.data.len(),
                res@.nrows == self@.nrows,
                res@.ncols == self@.ncols,
                forall|q: int| 0 <= q < k ==>
                    #[trigger] res@.data[q] == max_int(self@.data[q] as int, other@.data[q] as int),
                forall|q: int| k <= q < n ==> #[trigger] res@.data[q] == self@.data[q],
        {
            let x = self.get_flat(k);
            let y = other.get_flat(k);
            res.set_flat(k, simd_max(x, y));
        }
        assert(res@.data == sup_of(self@, other@).data);
        res
    }

    /// Computes the pair (infimum, supremum) of two matrices of the same shape.
    pub fn inf_sup(&self, other: &Matrix<i64>) -> (r: (Matrix<i64>, Matrix<i64>))
        requires
            self@.same_shape(other@),
        ensures
            r.0@ == inf_of(self@, other@),
            r.1@ == sup_of(self@, other@),
    {
        (self.inf(other), self.sup(other))
    }

    /// Adds the scalar `rhs` to every entry of `self`, in place.
    pub fn add_scalar_mut(&mut self, rhs: i64)
        requires
            add_scalar_defined(old(self)@, rhs),
        ensures
            final(self)@ == add_scalar_of(old(self)@, rhs),
    {
        let ghost m0 = self@;
        let n = self.len();
        for k in 0..n
            invariant
                n == self@.data.len(),
                self@.nrows == m0.nrows,
                self@.ncols == m0.ncols,
                m0.data.len() == n,
                add_scalar_defined(m0, rhs),
                forall|q: int| 0 <= q < k ==> #[trigger] self@.data[q] == m0.data[q] + rhs,
                forall|q: int| k <= q < n ==> #[trigger] self@.data[q] == m0.data[q],
        {
            let x = self.get_flat(k);
            assert(fits_i64(m0.data[k as int] + rhs));
            self.set_flat(k, x + rhs);
        }
        assert(self@.data == add_scalar_of(m0, rhs).data);
    }

    /// Returns `self` with the scalar `rhs` added to every entry.
    pub fn add_scalar(&self, rhs: i64) -> (r: Matrix<i64>)
        requires
            add_scalar_defined(self@, rhs),
        ensures
            r@ == add_scalar_of(self@, rhs),
    {
        let mut res = self.clone_owned();
        res.add_scalar_mut(rhs);
        res
    }
}

} // verus!
