//! The verification scan: compare the output matrix against the
//! reference matrix in row-major order, and report the first cell whose
//! difference reaches the tolerance.

use vstd::prelude::*;

use crate::matrix::Matrix;
use crate::model::bounded;

verus! {

/// Largest magnitude an entry handed to the scan may have, so that a
/// difference of two entries stays within 64 bits.
pub const MAX_RESULT: i64 = 2305843009213693951;

/// The first failing cell of a verification scan: its indices and the
/// two values whose difference reached the tolerance.
#[derive(Debug)]
pub struct CheckFailure {
    /// Row of the first offending cell.
    pub row: usize,
    /// Column of the first offending cell.
    pub col: usize,
    /// What the output matrix holds there.
    pub got: i64,
    /// What the reference matrix holds there.
    pub want: i64,
}

/// Cell `(i, j)` of `c` lies strictly within `tol` of the reference.
pub open spec fn cell_ok(c: Seq<Seq<int>>, truth: Seq<Seq<int>>, i: int, j: int, tol: int) -> bool {
    -tol < c[i][j] - truth[i][j] < tol
}

/// `(i1, j1)` comes before `(i2, j2)` in row-major order.
pub open spec fn row_major_before(i1: int, j1: int, i2: int, j2: int) -> bool {
    i1 < i2 || (i1 == i2 && j1 < j2)
}

/// Scan `c` against `truth` in row-major order. Succeeds exactly when
/// every cell lies strictly within `tol` of the reference; otherwise
/// reports the first offending cell with both values.
#[verifier::loop_isolation(false)]
pub fn check(c: &Matrix, truth: &Matrix, tol: i64) -> (r: Result<(), CheckFailure>)
    requires
        c.wf(),
        truth.wf(),
        truth.spec_dim() == c.spec_dim(),
        0 < tol,
        bounded(c@, MAX_RESULT as int),
        bounded(truth@, MAX_RESULT as int),
    ensures
        r is Ok <==> (forall|i: int, j: int|
            0 <= i < c.spec_dim() && 0 <= j < c.spec_dim() ==> cell_ok(c@, truth@, i, j, tol as int)),
        r is Err ==> ({
            let f = r->Err_0;
            &&& 0 <= f.row < c.spec_dim()
            &&& 0 <= f.col < c.spec_dim()
            &&& !cell_ok(c@, truth@, f.row as int, f.col as int, tol as int)
            &&& f.got == c@[f.row as int][f.col as int]
            &&& f.want == truth@[f.row as int][f.col as int]
            &&& forall|i: int, j: int|
                0 <= i < c.spec_dim() && 0 <= j < c.spec_dim() && row_major_before(
                    i,
                    j,
                    f.row as int,
                    f.col as int,
                ) ==> cell_ok(c@, truth@, i, j, tol as int)
        }),
{
    let n: usize = c.dim();
    let mut i: usize = 0;
    while i < n
        invariant
            i <= n,
            forall|i2: int, j2: int|
                0 <= i2 < i && 0 <= j2 < n ==> cell_ok(c@, truth@, i2, j2, tol as int),
        decreases n - i,
    {
        let mut j: usize = 0;
        while j < n
            invariant
                i < n,
                j <= n,
                forall|i2: int, j2: int|
                    0 <= i2 < i && 0 <= j2 < n ==> cell_ok(c@, truth@, i2, j2, tol as int),
                forall|j2: int| 0 <= j2 < j ==> cell_ok(c@, truth@, i as int, j2, tol as int),
            decreases n - j,
        {
            let got: i64 = c.get(i, j);
            let want: i64 = truth.get(i, j);
            let diff: i64 = got - want;
            if diff <= -tol || diff >= tol {
                proof {
                    assert(!cell_ok(c@, truth@, i as int, j as int, tol as int));
                }
                return Err(CheckFailure { row: i, col: j, got, want });
            }
            j = j + 1;
        }
        i = i + 1;
    }
    Ok(())
}

} // verus!
