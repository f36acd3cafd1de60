//! A dense, column-major matrix and its mathematical model.
use vstd::prelude::*;

verus! {

/// The mathematical model of a matrix: its shape and its entries in
/// column-major order (entry `(i, j)` stands at `j * nrows + i`).
pub struct MatrixModel<T> {
    pub nrows: nat,
    pub ncols: nat,
    pub data: Seq<T>,
}

impl<T> MatrixModel<T> {
    /// The model holds exactly `nrows * ncols` entries.
    pub open spec fn wf(self) -> bool {
        self.data.len() == self.nrows * self.ncols
    }

    /// The flat (column-major) position of entry `(i, j)`.
    pub open spec fn pos(self, i: int, j: int) -> int {
        j * self.nrows + i
    }

    /// Entry at row `i`, column `j`.
    pub open spec fn at(self, i: int, j: int) -> T {
        self.data[self.pos(i, j)]
    }

    /// Whether `other` has the same number of rows and columns.
    pub open spec fn same_shape<U>(self, other: MatrixModel<U>) -> bool {
        self.nrows == other.nrows && self.ncols == other.ncols
    }
}

/// A dense matrix with `nrows` rows and `ncols` columns, stored column by column.
#[derive(Debug, PartialEq, Eq)]
pub struct Matrix<T> {
    nrows: usize,
    ncols: usize,
    data: Vec<T>,
}

impl<T> Matrix<T> {
    #[verifier::type_invariant]
    spec fn well_formed(self) -> bool {
        self.data.len() == self.nrows * self.ncols
    }
}

impl<T> View for Matrix<T> {
    type V = MatrixModel<T>;

    closed spec fn view(&self) -> MatrixModel<T> {
        MatrixModel { nrows: self.nrows as nat, ncols: self.ncols as nat, data: self.data@ }
    }
}

/// Position `j * nrows + i` lies inside a matrix of `nrows * ncols` entries.
pub proof fn lemma_pos_in_bounds(nrows: int, ncols: int, i: int, j: int)
    requires
        0 <= i < nrows,
        0 <= j < ncols,
    ensures
        0 <= j * nrows + i < nrows * ncols,
{
    assert(0 <= j * nrows) by (nonlinear_arith)
        requires
            0 <= j,
            0 <= nrows,
    ;
    assert(j * nrows + nrows <= ncols * nrows) by (nonlinear_arith)
        requires
            0 <= j < ncols,
            0 <= nrows,
    ;
    assert(ncols * nrows == nrows * ncols) by (nonlinear_arith);
}

/// Row and column are recovered from the flat position `j * nrows + i`.
pub proof fn lemma_pos_div_mod(nrows: int, i: int, j: int)
    requires
        0 <= i < nrows,
    ensures
        (j * nrows + i) % nrows == i,
        (j * nrows + i) / nrows == j,
{
    vstd::arithmetic::div_mod::lemma_fundamental_div_mod_converse(j * nrows + i, nrows, j, i);
}

impl<T: Copy> Matrix<T> {
    /// Builds a matrix from its entries listed column by column.
    pub fn from_vec(nrows: usize, ncols: usize, data: Vec<T>) -> (m: Matrix<T>)
        requires
            data.len() == nrows * ncols,
        ensures
            m@ == (MatrixModel { nrows: nrows as nat, ncols: ncols as nat, data: data@ }),
            m@.wf(),
    {
        Matrix { nrows, ncols, data }
    }

    /// Builds a matrix from its entries listed row by row: entry `(i, j)` is
    /// `data[i * ncols + j]`.
    pub fn from_row_slice(nrows: usize, ncols: usize, data: &[T]) -> (m: Matrix<T>)
        requires
            data@.len() == nrows * ncols,
        ensures
            m@.nrows == nrows,
            m@.ncols == ncols,
            m@.wf(),
            forall|i: int, j: int|
                0 <= i < nrows && 0 <= j < ncols ==> #[trigger] m@.at(i, j) == data@[i * ncols + j],
    {
        let n = data.len();
        let mut out: Vec<T> = Vec::new();
        let mut j: usize = 0;
        while j < ncols
            invariant
                data@.len() == nrows * ncols,
                n == data@.len(),
                j <= ncols,
                out@.len() == j * nrows,
                forall|k: int| 0 <= k < out@.len() ==>
                    #[trigger] out@[k] == data@[(k % (nrows as int)) * ncols + k / (nrows as int)],
            decreases ncols - j,
        {
            let mut i: usize = 0;
            while i < nrows
                invariant
                    data@.len() == nrows * ncols,
                    n == data@.len(),
                    j < ncols,
                    i <= nrows,
                    out@.len() == j * nrows + i,
                    forall|k: int| 0 <= k < out@.len() ==>
                        #[trigger] out@[k] == data@[(k % (nrows as int)) * ncols + k / (nrows as int)],
                decreases nrows - i,
            {
                proof {
                    lemma_pos_div_mod(nrows as int, i as int, j as int);
                    lemma_pos_in_bounds(ncols as int, nrows as int, j as int, i as int);
                    assert(ncols * nrows == nrows * ncols) by (nonlinear_arith);
                }
                out.push(data[i * ncols + j]);
                i = i + 1;
            }
            proof {
                assert((j + 1) * nrows == j * nrows + nrows) by (nonlinear_arith);
            }
            j = j + 1;
        }
        proof {
            assert(ncols * nrows == nrows * ncols) by (nonlinear_arith);
        }
        let m = Matrix { nrows, ncols, data: out };
        proof {
            assert forall|i: int, j: int| 0 <= i < nrows && 0 <= j < ncols implies
                #[trigger] m@.at(i, j) == data@[i * ncols + j] by {
                lemma_pos_div_mod(nrows as int, i, j);
                lemma_pos_in_bounds(nrows as int, ncols as int, i, j);
            }
        }
        m
    }

    /// The number of rows.
    pub fn nrows(&self) -> (r: usize)
        ensures
            r == self@.nrows,
            self@.wf(),
    {
        proof { use_type_invariant(self); }
        self.nrows
    }

    /// The number of columns.
    pub fn ncols(&self) -> (r: usize)
        ensures
            r == self@.ncols,
            self@.wf(),
    {
        proof { use_type_invariant(self); }
        self.ncols
    }

    /// The pair `(nrows, ncols)`.
    pub fn shape(&self) -> (r: (usize, usize))
        ensures
            r.0 == self@.nrows,
            r.1 == self@.ncols,
            self@.wf(),
    {
        proof { use_type_invariant(self); }
        (self.nrows, self.ncols)
    }

    /// The number of entries, `nrows * ncols`.
    pub fn len(&self) -> (r: usize)
        ensures
            r == self@.data.len(),
            self@.wf(),
    {
        proof { use_type_invariant(self); }
        self.data.len()
    }

    /// The entries, column by column.
    pub fn as_slice(&self) -> (r: &[T])
        ensures
            r@ == self@.data,
    {
        self.data.as_slice()
    }

    /// The entry at row `i`, column `j`.
    pub fn get(&self, i: usize, j: usize) -> (r: T)
        requires
            i < self@.nrows,
            j < self@.ncols,
        ensures
            r == self@.at(i as int, j as int),
    {
        proof {
            use_type_invariant(self);
            lemma_pos_in_bounds(self.nrows as int, self.ncols as int, i as int, j as int);
        }
        self.data[j * self.nrows + i]
    }

    /// The entry at flat (column-major) position `k`.
    pub fn get_flat(&self, k: usize) -> (r: T)
        requires
            k < self@.data.len(),
        ensures
            r == self@.data[k as int],
    {
        self.data[k]
    }

    /// Overwrites the entry at flat (column-major) position `k`.
    pub fn set_flat(&mut self, k: usize, v: T)
        requires
            k < old(self)@.data.len(),
        ensures
            final(self)@ == (MatrixModel {
                nrows: old(self)@.nrows,
                ncols: old(self)@.ncols,
                data: old(self)@.data.update(k as int, v),
            }),
    {
        proof { use_type_invariant(&*self); }
        let mut taken = Matrix { nrows: 0, ncols: 0, data: Vec::new() };
        std::mem::swap(self, &mut taken);
        let Matrix { nrows, ncols, mut data } = taken;
        data.set(k, v);
        *self = Matrix { nrows, ncols, data };
    }

    /// A copy of `self` that owns its storage.
    pub fn clone_owned(&self) -> (r: Matrix<T>)
        ensures
            r@ == self@,
    {
        proof { use_type_invariant(self); }
        let mut data: Vec<T> = Vec::new();
        let n = self.data.len();
        for k in 0..n
            invariant
                n == self.data@.len(),
                data@ == self.data@.subrange(0, k as int),
        {
            data.push(self.data[k]);
        }
        assert(data@ == self.data@);
        Matrix { nrows: self.nrows, ncols: self.ncols, data }
    }
}

} // verus!
