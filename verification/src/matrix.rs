//! The matrix store: a dense square matrix of 64-bit integers in
//! row-major order, with allocation, population, transposition and
//! reset-to-zero.

use vstd::prelude::*;

use crate::model::{all_zero, bounded, identity_spec, is_square, transpose_spec, MAX_DIM};

verus! {

/// An `n` by `n` matrix, stored row-major in one flat vector: the entry
/// at row `i`, column `j` lives at index `i * n + j`.
pub struct Matrix {
    /// The dimension of the square grid.
    pub n: usize,
    /// The entries, row-major: `n * n` of them when well formed.
    pub data: Vec<i64>,
}

impl View for Matrix {
    type V = Seq<Seq<int>>;

    open spec fn view(&self) -> Seq<Seq<int>> {
        Seq::new(
            self.n as nat,
            |i: int| Seq::new(self.n as nat, |j: int| self.data@[i * self.n + j] as int),
        )
    }
}

impl Matrix {
    /// The matrix is well formed: the flat storage holds exactly `n * n`
    /// entries and the dimension is within range.
    pub open spec fn wf(&self) -> bool {
        &&& self.data.len() == self.n * self.n
        &&& self.n <= MAX_DIM
    }

    /// The dimension `n`.
    pub fn dim(&self) -> (r: usize)
        ensures
            r == self.spec_dim(),
    {
        self.n
    }

    /// The dimension `n`, for contracts.
    pub open spec fn spec_dim(&self) -> int {
        self.n as int
    }

    /// A well-formed matrix views as a square grid of its dimension.
    pub proof fn lemma_view_square(&self)
        ensures
            is_square(self@, self.spec_dim()),
            self@.len() == self.spec_dim(),
    {
    }

    /// Flat index of row `i`, column `j`.
    fn flat_index(&self, i: usize, j: usize) -> (r: usize)
        requires
            self.wf(),
            i < self.n,
            j < self.n,
        ensures
            r == i * self.spec_dim() + j,
            r < self.data.len(),
    {
        proof {
            assert(i * self.n + j < self.n * self.n) by (nonlinear_arith)
                requires
                    i < self.n,
                    j < self.n,
            ;
            assert(self.n * self.n <= 16777216) by (nonlinear_arith)
                requires
                    self.n <= 4096,
            ;
        }
        i * self.n + j
    }

    /// Read the entry at row `i`, column `j`.
    pub fn get(&self, i: usize, j: usize) -> (r: i64)
        requires
            self.wf(),
            i < self.spec_dim(),
            j < self.spec_dim(),
        ensures
            r == self@[i as int][j as int],
    {
        let idx: usize = self.flat_index(i, j);
        self.data[idx]
    }

    /// Write `v` to the entry at row `i`, column `j`; every other entry
    /// keeps its value.
    pub fn set(&mut self, i: usize, j: usize, v: i64)
        requires
            old(self).wf(),
            i < old(self).spec_dim(),
            j < old(self).spec_dim(),
        ensures
            final(self).wf(),
            final(self).spec_dim() == old(self).spec_dim(),
            forall|i2: int, j2: int|
                0 <= i2 < old(self).spec_dim() && 0 <= j2 < old(self).spec_dim()
                    ==> #[trigger] final(self)@[i2][j2] == if i2 == i as int && j2 == j as int {
                    v as int
                } else {
                    old(self)@[i2][j2]
                },
    {
        let idx: usize = self.flat_index(i, j);
        self.data.set(idx, v);
        proof {
            assert forall|i2: int, j2: int|
                0 <= i2 < old(self).spec_dim() && 0 <= j2 < old(self).spec_dim()
                    implies #[trigger] self@[i2][j2] == if i2 == i as int && j2 == j as int {
                    v as int
                } else {
                    old(self)@[i2][j2]
                } by {
                assert(0 <= i2 * (self.n as int) + j2 < (self.n as int) * (self.n as int)
                    && ((i2 == i as int && j2 == j as int) <==> i2 * (self.n as int) + j2 == (
                i as int) * (self.n as int) + (j as int))) by (nonlinear_arith)
                    requires
                        0 <= i2 < self.n as int,
                        0 <= j2 < self.n as int,
                        0 <= (i as int) < self.n as int,
                        0 <= (j as int) < self.n as int,
                ;
            }
        }
    }

    /// Allocate an `n` by `n` matrix of zeros.
    pub fn zero(n: usize) -> (r: Matrix)
        requires
            n <= MAX_DIM,
        ensures
            r.wf(),
            r.spec_dim() == n,
            forall|i: int, j: int| 0 <= i < n && 0 <= j < n ==> #[trigger] r@[i][j] == 0,
            all_zero(r@),
    {
        proof {
            assert(n * n <= 16777216) by (nonlinear_arith)
                requires
                    n <= 4096,
            ;
        }
        let mut data: Vec<i64> = Vec::new();
        let total: usize = n * n;
        let mut t: usize = 0;
        while t < total
            invariant
                t <= total,
                data.len() == t,
                forall|u: int| 0 <= u < t ==> #[trigger] data@[u] == 0,
            decreases total - t,
        {
            data.push(0);
            t = t + 1;
        }
        let r = Matrix { n, data };
        proof {
            assert forall|i: int, j: int| 0 <= i < n && 0 <= j < n implies #[trigger] r@[i][j]
                == 0 by {
                assert(0 <= i * (n as int) + j < (n as int) * (n as int)) by (nonlinear_arith)
                    requires
                        0 <= i < n as int,
                        0 <= j < n as int,
                ;
            }
        }
        r
    }

    /// Populate an `n` by `n` matrix from a row-major flat source.
    pub fn from_flat(n: usize, values: Vec<i64>) -> (r: Matrix)
        requires
            n <= MAX_DIM,
            values.len() == n * n,
        ensures
            r.wf(),
            r.spec_dim() == n,
            forall|i: int, j: int|
                0 <= i < n && 0 <= j < n ==> #[trigger] r@[i][j] == values@[i * n + j],
    {
        Matrix { n, data: values }
    }

    /// Allocate the `n` by `n` identity matrix.
    pub fn identity(n: usize) -> (r: Matrix)
        requires
            n <= MAX_DIM,
        ensures
            r.wf(),
            r.spec_dim() == n,
            forall|i: int, j: int|
                0 <= i < n && 0 <= j < n ==> #[trigger] r@[i][j] == if i == j {
                    1int
                } else {
                    0int
                },
            r@ == identity_spec(n as int),
    {
        let mut r = Matrix::zero(n);
        let mut i: usize = 0;
        while i < n
            invariant
                i <= n,
                r.wf(),
                r.spec_dim() == n,
                forall|i2: int, j2: int|
                    0 <= i2 < n && 0 <= j2 < n ==> #[trigger] r@[i2][j2] == if i2 == j2 && i2 < i {
                        1int
                    } else {
                        0int
                    },
            decreases n - i,
        {
            r.set(i, i, 1);
            i = i + 1;
        }
        proof {
            assert(r@ =~~= identity_spec(n as int));
        }
        r
    }

    /// Reset every entry to zero, keeping the dimension.
    pub fn reset_zero(&mut self)
        requires
            old(self).wf(),
        ensures
            final(self).wf(),
            final(self).spec_dim() == old(self).spec_dim(),
            forall|i: int, j: int|
                0 <= i < old(self).spec_dim() && 0 <= j < old(self).spec_dim()
                    ==> #[trigger] final(self)@[i][j] == 0,
            all_zero(final(self)@),
    {
        let n: usize = self.n;
        let mut i: usize = 0;
        while i < n
            invariant
                i <= n,
                self.wf(),
                self.spec_dim() == n,
                forall|i2: int, j2: int|
                    0 <= i2 < n && 0 <= j2 < n && i2 < i ==> #[trigger] self@[i2][j2] == 0,
            decreases n - i,
        {
            let mut j: usize = 0;
            while j < n
                invariant
                    i < n,
                    j <= n,
                    self.wf(),
                    self.spec_dim() == n,
                    forall|i2: int, j2: int|
                        0 <= i2 < n && 0 <= j2 < n && i2 < i ==> #[trigger] self@[i2][j2] == 0,
                    forall|j2: int| 0 <= j2 < j ==> #[trigger] self@[i as int][j2] == 0,
                decreases n - j,
            {
                self.set(i, j, 0);
                j = j + 1;
            }
            i = i + 1;
        }
    }

    /// Transpose into a new copy: entry `(i, j)` of the result is entry
    /// `(j, i)` of `self`.
    pub fn transpose(&self) -> (r: Matrix)
        requires
            self.wf(),
        ensures
            r.wf(),
            r.spec_dim() == self.spec_dim(),
            r@ == transpose_spec(self@),
            forall|i: int, j: int|
                0 <= i < self.spec_dim() && 0 <= j < self.spec_dim()
                    ==> #[trigger] r@[i][j] == self@[j][i],
    {
        let n: usize = self.n;
        let mut r = Matrix::zero(n);
        let mut i: usize = 0;
        while i < n
            invariant
                i <= n,
                self.wf(),
                self.spec_dim() == n,
                r.wf(),
                r.spec_dim() == n,
                forall|i2: int, j2: int|
                    0 <= i2 < n && 0 <= j2 < n && i2 < i ==> #[trigger] r@[i2][j2] == self@[j2][i2],
            decreases n - i,
        {
            let mut j: usize = 0;
            while j < n
                invariant
                    i < n,
                    j <= n,
                    self.wf(),
                    self.spec_dim() == n,
                    r.wf(),
                    r.spec_dim() == n,
                    forall|i2: int, j2: int|
                        0 <= i2 < n && 0 <= j2 < n && i2 < i
                            ==> #[trigger] r@[i2][j2] == self@[j2][i2],
                    forall|j2: int| 0 <= j2 < j ==> #[trigger] r@[i as int][j2] == self@[j2][i as int],
                decreases n - j,
            {
                let v: i64 = self.get(j, i);
                r.set(i, j, v);
                j = j + 1;
            }
            i = i + 1;
        }
        proof {
            assert(r@ =~~= transpose_spec(self@));
        }
        r
    }

    /// Every entry lies in `[-b, b]`.
    pub fn is_bounded_by(&self, b: i64) -> (r: bool)
        requires
            self.wf(),
            0 <= b,
        ensures
            r == bounded(self@, b as int),
    {
        let n: usize = self.n;
        let mut i: usize = 0;
        while i < n
            invariant
                i <= n,
                self.wf(),
                self.spec_dim() == n,
                0 <= b,
                forall|i2: int, j2: int|
                    0 <= i2 < n && 0 <= j2 < n && i2 < i
                        ==> -(b as int) <= #[trigger] self@[i2][j2] <= b as int,
            decreases n - i,
        {
            let mut j: usize = 0;
            while j < n
                invariant
                    i < n,
                    j <= n,
                    self.wf(),
                    self.spec_dim() == n,
                    0 <= b,
                    forall|i2: int, j2: int|
                        0 <= i2 < n && 0 <= j2 < n && i2 < i
                            ==> -(b as int) <= #[trigger] self@[i2][j2] <= b as int,
                    forall|j2: int|
                        0 <= j2 < j ==> -(b as int) <= #[trigger] self@[i as int][j2] <= b as int,
                decreases n - j,
            {
                let v: i64 = self.get(i, j);
                if v < -b || v > b {
                    proof {
                        assert(!(-(b as int) <= self@[i as int][j as int] <= b as int));
                    }
                    return false;
                }
                j = j + 1;
            }
            i = i + 1;
        }
        true
    }
}

} // verus!
