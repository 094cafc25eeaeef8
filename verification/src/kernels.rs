//! The kernel set: five variants of dense square matrix
//! multiplication, each proved equivalent to the canonical definition
//! `C[i][j] = sum_k A[i][k] * B[k][j]`. The variants differ only in
//! operand layout, write mode and traversal order.

use vstd::prelude::*;

use crate::matrix::Matrix;
use crate::model::{
    bounded, column, dot_prefix, lemma_column_bounded, lemma_column_of_transpose,
    lemma_dot_prefix_bound, lemma_step_bounds, prod_entry, transpose_spec, MAX_ACC, MAX_ENTRY,
};
use crate::vector4::{horizontal_sum_size4, multiply_vector_size4};

verus! {

/// Inputs on which every kernel is defined: square operands of one
/// dimension, input entries within the input bound, and an output whose
/// entries are within the accumulator bound.
pub open spec fn kernel_inputs_ok(a: Matrix, b: Matrix, c: Matrix) -> bool {
    &&& a.wf()
    &&& b.wf()
    &&& c.wf()
    &&& b.spec_dim() == a.spec_dim()
    &&& c.spec_dim() == a.spec_dim()
    &&& bounded(a@, MAX_ENTRY as int)
    &&& bounded(b@, MAX_ENTRY as int)
    &&& bounded(c@, MAX_ACC as int)
}

/// Naive triple loop, accumulate mode, `b` in natural layout: reads and
/// writes `c` on every inner step.
#[verifier::loop_isolation(false)]
pub fn matmul_gemm(a: &Matrix, b: &Matrix, c: &mut Matrix)
    requires
        kernel_inputs_ok(*a, *b, *old(c)),
    ensures
        final(c).wf(),
        final(c).spec_dim() == a.spec_dim(),
        forall|i: int, j: int|
            0 <= i < a.spec_dim() && 0 <= j < a.spec_dim() ==> #[trigger] final(c)@[i][j] == old(
                c,
            )@[i][j] + prod_entry(a@, b@, i, j),
{
    let n: usize = a.dim();
    let mut i: usize = 0;
    while i < n
        invariant
            i <= n,
            c.wf(),
            c.spec_dim() == n,
            forall|i2: int, j2: int|
                0 <= i2 < i && 0 <= j2 < n ==> #[trigger] c@[i2][j2] == old(c)@[i2][j2]
                    + prod_entry(a@, b@, i2, j2),
            forall|i2: int, j2: int|
                i <= i2 < n && 0 <= j2 < n ==> #[trigger] c@[i2][j2] == old(c)@[i2][j2],
        decreases n - i,
    {
        let mut j: usize = 0;
        while j < n
            invariant
                i < n,
                j <= n,
                c.wf(),
                c.spec_dim() == n,
                forall|i2: int, j2: int|
                    0 <= i2 < i && 0 <= j2 < n ==> #[trigger] c@[i2][j2] == old(c)@[i2][j2]
                        + prod_entry(a@, b@, i2, j2),
                forall|j2: int|
                    0 <= j2 < j ==> #[trigger] c@[i as int][j2] == old(c)@[i as int][j2]
                        + prod_entry(a@, b@, i as int, j2),
                forall|j2: int|
                    j <= j2 < n ==> #[trigger] c@[i as int][j2] == old(c)@[i as int][j2],
                forall|i2: int, j2: int|
                    i < i2 < n && 0 <= j2 < n ==> #[trigger] c@[i2][j2] == old(c)@[i2][j2],
            decreases n - j,
        {
            let mut k: usize = 0;
            while k < n
                invariant
                    i < n,
                    j < n,
                    k <= n,
                    c.wf(),
                    c.spec_dim() == n,
                    c@[i as int][j as int] == old(c)@[i as int][j as int] + dot_prefix(
                        a@[i as int],
                        column(b@, j as int),
                        k as int,
                    ),
                    forall|i2: int, j2: int|
                        0 <= i2 < i && 0 <= j2 < n ==> #[trigger] c@[i2][j2] == old(c)@[i2][j2]
                            + prod_entry(a@, b@, i2, j2),
                    forall|j2: int|
                        0 <= j2 < j ==> #[trigger] c@[i as int][j2] == old(c)@[i as int][j2]
                            + prod_entry(a@, b@, i as int, j2),
                    forall|j2: int|
                        j < j2 < n ==> #[trigger] c@[i as int][j2] == old(c)@[i as int][j2],
                    forall|i2: int, j2: int|
                        i < i2 < n && 0 <= j2 < n ==> #[trigger] c@[i2][j2] == old(c)@[i2][j2],
                decreases n - k,
            {
                proof {
                    lemma_column_bounded(b@, n as int, j as int, MAX_ENTRY as int);
                    lemma_step_bounds(a@[i as int], column(b@, j as int), k as int, n as int);
                    assert(column(b@, j as int)[k as int] == b@[k as int][j as int]);
                }
                let aik: i64 = a.get(i, k);
                let bkj: i64 = b.get(k, j);
                let cur: i64 = c.get(i, j);
                c.set(i, j, cur + aik * bkj);
                k = k + 1;
            }
            j = j + 1;
        }
        i = i + 1;
    }
}

/// Local-accumulator variant, accumulate mode, `b` in natural layout:
/// sums into a local scalar and adds to `c` once per cell.
#[verifier::loop_isolation(false)]
pub fn matmul_gemm_local_accumulator(a: &Matrix, b: &Matrix, c: &mut Matrix)
    requires
        kernel_inputs_ok(*a, *b, *old(c)),
    ensures
        final(c).wf(),
        final(c).spec_dim() == a.spec_dim(),
        forall|i: int, j: int|
            0 <= i < a.spec_dim() && 0 <= j < a.spec_dim() ==> #[trigger] final(c)@[i][j] == old(
                c,
            )@[i][j] + prod_entry(a@, b@, i, j),
{
    let n: usize = a.dim();
    let mut i: usize = 0;
    while i < n
        invariant
            i <= n,
            c.wf(),
            c.spec_dim() == n,
            forall|i2: int, j2: int|
                0 <= i2 < i && 0 <= j2 < n ==> #[trigger] c@[i2][j2] == old(c)@[i2][j2]
                    + prod_entry(a@, b@, i2, j2),
            forall|i2: int, j2: int|
                i <= i2 < n && 0 <= j2 < n ==> #[trigger] c@[i2][j2] == old(c)@[i2][j2],
        decreases n - i,
    {
        let mut j: usize = 0;
        while j < n
            invariant
                i < n,
                j <= n,
                c.wf(),
                c.spec_dim() == n,
                forall|i2: int, j2: int|
                    0 <= i2 < i && 0 <= j2 < n ==> #[trigger] c@[i2][j2] == old(c)@[i2][j2]
                        + prod_entry(a@, b@, i2, j2),
                forall|j2: int|
                    0 <= j2 < j ==> #[trigger] c@[i as int][j2] == old(c)@[i as int][j2]
                        + prod_entry(a@, b@, i as int, j2),
                forall|j2: int|
                    j <= j2 < n ==> #[trigger] c@[i as int][j2] == old(c)@[i as int][j2],
                forall|i2: int, j2: int|
                    i < i2 < n && 0 <= j2 < n ==> #[trigger] c@[i2][j2] == old(c)@[i2][j2],
            decreases n - j,
        {
            let mut acc: i64 = 0;
            let mut k: usize = 0;
            while k < n
                invariant
                    i < n,
                    j < n,
                    k <= n,
                    acc == dot_prefix(a@[i as int], column(b@, j as int), k as int),
                    -17592186044416 <= acc <= 17592186044416,
                decreases n - k,
            {
                proof {
                    lemma_column_bounded(b@, n as int, j as int, MAX_ENTRY as int);
                    lemma_step_bounds(a@[i as int], column(b@, j as int), k as int, n as int);
                    assert(column(b@, j as int)[k as int] == b@[k as int][j as int]);
                }
                let aik: i64 = a.get(i, k);
                let bkj: i64 = b.get(k, j);
                acc = acc + aik * bkj;
                k = k + 1;
            }
            let cur: i64 = c.get(i, j);
            c.set(i, j, cur + acc);
            j = j + 1;
        }
        i = i + 1;
    }
}

/// Transposed-operand variant, accumulate mode, `bt` holding the
/// transpose of the right operand: both operands are traversed along
/// their rows. The result is the canonical product of `a` with the
/// matrix `bt` is the transpose of.
#[verifier::loop_isolation(false)]
pub fn matmul_gemm_local_transposed(a: &Matrix, bt: &Matrix, c: &mut Matrix)
    requires
        kernel_inputs_ok(*a, *bt, *old(c)),
    ensures
        final(c).wf(),
        final(c).spec_dim() == a.spec_dim(),
        forall|i: int, j: int|
            0 <= i < a.spec_dim() && 0 <= j < a.spec_dim() ==> #[trigger] final(c)@[i][j] == old(
                c,
            )@[i][j] + prod_entry(a@, transpose_spec(bt@), i, j),
{
    let n: usize = a.dim();
    let mut i: usize = 0;
    while i < n
        invariant
            i <= n,
            c.wf(),
            c.spec_dim() == n,
            forall|i2: int, j2: int|
                0 <= i2 < i && 0 <= j2 < n ==> #[trigger] c@[i2][j2] == old(c)@[i2][j2]
                    + prod_entry(a@, transpose_spec(bt@), i2, j2),
            forall|i2: int, j2: int|
                i <= i2 < n && 0 <= j2 < n ==> #[trigger] c@[i2][j2] == old(c)@[i2][j2],
        decreases n - i,
    {
        let mut j: usize = 0;
        while j < n
            invariant
                i < n,
                j <= n,
                c.wf(),
                c.spec_dim() == n,
                forall|i2: int, j2: int|
                    0 <= i2 < i && 0 <= j2 < n ==> #[trigger] c@[i2][j2] == old(c)@[i2][j2]
                        + prod_entry(a@, transpose_spec(bt@), i2, j2),
                forall|j2: int|
                    0 <= j2 < j ==> #[trigger] c@[i as int][j2] == old(c)@[i as int][j2]
                        + prod_entry(a@, transpose_spec(bt@), i as int, j2),
                forall|j2: int|
                    j <= j2 < n ==> #[trigger] c@[i as int][j2] == old(c)@[i as int][j2],
                forall|i2: int, j2: int|
                    i < i2 < n && 0 <= j2 < n ==> #[trigger] c@[i2][j2] == old(c)@[i2][j2],
            decreases n - j,
        {
            let mut acc: i64 = 0;
            let mut k: usize = 0;
            while k < n
                invariant
                    i < n,
                    j < n,
                    k <= n,
                    acc == dot_prefix(a@[i as int], bt@[j as int], k as int),
                    -17592186044416 <= acc <= 17592186044416,
                decreases n - k,
            {
                proof {
                    lemma_step_bounds(a@[i as int], bt@[j as int], k as int, n as int);
                }
                let aik: i64 = a.get(i, k);
                let btjk: i64 = bt.get(j, k);
                acc = acc + aik * btjk;
                k = k + 1;
            }
            proof {
                lemma_column_of_transpose(bt@, n as int, j as int);
            }
            let cur: i64 = c.get(i, j);
            c.set(i, j, cur + acc);
            j = j + 1;
        }
        i = i + 1;
    }
}

/// Vector-lane variant, assign mode, `bt` holding the transpose of the
/// right operand: walks each inner product in chunks of four lanes
/// through the vector multiply-reduce primitive and writes each cell
/// once, whatever `c` held before. Requires the dimension to be a
/// multiple of four.
#[verifier::loop_isolation(false)]
pub fn matmul_gemm_simple_neon(a: &Matrix, bt: &Matrix, c: &mut Matrix)
    requires
        a.wf(),
        bt.wf(),
        old(c).wf(),
        bt.spec_dim() == a.spec_dim(),
        old(c).spec_dim() == a.spec_dim(),
        bounded(a@, MAX_ENTRY as int),
        bounded(bt@, MAX_ENTRY as int),
        a.spec_dim() % 4 == 0,
    ensures
        final(c).wf(),
        final(c).spec_dim() == a.spec_dim(),
        forall|i: int, j: int|
            0 <= i < a.spec_dim() && 0 <= j < a.spec_dim() ==> #[trigger] final(c)@[i][j]
                == prod_entry(a@, transpose_spec(bt@), i, j),
{
    let n: usize = a.dim();
    let mut i: usize = 0;
    while i < n
        invariant
            i <= n,
            c.wf(),
            c.spec_dim() == n,
            forall|i2: int, j2: int|
                0 <= i2 < i && 0 <= j2 < n ==> #[trigger] c@[i2][j2] == prod_entry(
                    a@,
                    transpose_spec(bt@),
                    i2,
                    j2,
                ),
        decreases n - i,
    {
        let mut j: usize = 0;
        while j < n
            invariant
                i < n,
                j <= n,
                c.wf(),
                c.spec_dim() == n,
                forall|i2: int, j2: int|
                    0 <= i2 < i && 0 <= j2 < n ==> #[trigger] c@[i2][j2] == prod_entry(
                        a@,
                        transpose_spec(bt@),
                        i2,
                        j2,
                    ),
                forall|j2: int|
                    0 <= j2 < j ==> #[trigger] c@[i as int][j2] == prod_entry(
                        a@,
                        transpose_spec(bt@),
                        i as int,
                        j2,
                    ),
            decreases n - j,
        {
            let mut acc: i64 = 0;
            let mut chunk: usize = 0;
            while chunk < n
                invariant
                    i < n,
                    j < n,
                    chunk <= n,
                    chunk % 4 == 0,
                    acc == dot_prefix(a@[i as int], bt@[j as int], chunk as int),
                    -17592186044416 <= acc <= 17592186044416,
                decreases n - chunk,
            {
                assert(chunk + 4 <= n);
                let a_chunk: [i64; 4] = [
                    a.get(i, chunk),
                    a.get(i, chunk + 1),
                    a.get(i, chunk + 2),
                    a.get(i, chunk + 3),
                ];
                let b_chunk: [i64; 4] = [
                    bt.get(j, chunk),
                    bt.get(j, chunk + 1),
                    bt.get(j, chunk + 2),
                    bt.get(j, chunk + 3),
                ];
                let vres: [i64; 4] = multiply_vector_size4(a_chunk, b_chunk);
                let res: i64 = horizontal_sum_size4(vres);
                proof {
                    let av = a@[i as int];
                    let btv = bt@[j as int];
                    let m = chunk as int;
                    lemma_dot_prefix_bound(av, btv, m + 4, 65536);
                    assert(dot_prefix(av, btv, m + 4) == dot_prefix(av, btv, m + 3) + av[m + 3]
                        * btv[m + 3]);
                    assert(dot_prefix(av, btv, m + 3) == dot_prefix(av, btv, m + 2) + av[m + 2]
                        * btv[m + 2]);
                    assert(dot_prefix(av, btv, m + 2) == dot_prefix(av, btv, m + 1) + av[m + 1]
                        * btv[m + 1]);
                    assert(dot_prefix(av, btv, m + 1) == dot_prefix(av, btv, m) + av[m] * btv[m]);
                }
                acc = acc + res;
                chunk = chunk + 4;
            }
            proof {
                lemma_column_of_transpose(bt@, n as int, j as int);
            }
            c.set(i, j, acc);
            j = j + 1;
        }
        i = i + 1;
    }
}

/// Cache-blocked variant, accumulate mode, `bt` holding the transpose
/// of the right operand: partitions the index space into cubic blocks
/// of edge `block_size`, which must evenly divide the dimension, and
/// accumulates one block of inner-product terms at a time.
#[verifier::loop_isolation(false)]
pub fn matmul_gemm_block(a: &Matrix, bt: &Matrix, c: &mut Matrix, block_size: usize)
    requires
        kernel_inputs_ok(*a, *bt, *old(c)),
        1 <= block_size,
        a.spec_dim() % (block_size as int) == 0,
    ensures
        final(c).wf(),
        final(c).spec_dim() == a.spec_dim(),
        forall|i: int, j: int|
            0 <= i < a.spec_dim() && 0 <= j < a.spec_dim() ==> #[trigger] final(c)@[i][j] == old(
                c,
            )@[i][j] + prod_entry(a@, transpose_spec(bt@), i, j),
{
    let n: usize = a.dim();
    let s: usize = block_size;
    let bnum: usize = n / s;
    proof {
        vstd::arithmetic::div_mod::lemma_fundamental_div_mod(n as int, s as int);
        assert(bnum * s == n) by (nonlinear_arith)
            requires
                n as int == s as int * (bnum as int) + n as int % (s as int),
                n as int % (s as int) == 0,
        ;
    }
    let mut bi: usize = 0;
    while bi < bnum
        invariant
            bi <= bnum,
            c.wf(),
            c.spec_dim() == n,
            forall|i2: int, j2: int|
                0 <= i2 < bi * s && 0 <= j2 < n ==> #[trigger] c@[i2][j2] == old(c)@[i2][j2]
                    + dot_prefix(a@[i2], bt@[j2], n as int),
            forall|i2: int, j2: int|
                bi * s <= i2 < n && 0 <= j2 < n ==> #[trigger] c@[i2][j2] == old(c)@[i2][j2],
        decreases bnum - bi,
    {
        proof {
            assert(bi * s + s <= bnum * s && (bi + 1) * s == bi * s + s) by (nonlinear_arith)
                requires
                    bi < bnum,
                    1 <= s,
            ;
        }
        let row_lo: usize = bi * s;
        let mut bj: usize = 0;
        while bj < bnum
            invariant
                bj <= bnum,
                c.wf(),
                c.spec_dim() == n,
                forall|i2: int, j2: int|
                    0 <= i2 < row_lo && 0 <= j2 < n ==> #[trigger] c@[i2][j2] == old(c)@[i2][j2]
                        + dot_prefix(a@[i2], bt@[j2], n as int),
                forall|i2: int, j2: int|
                    row_lo <= i2 < row_lo + s && 0 <= j2 < bj * s ==> #[trigger] c@[i2][j2] == old(
                        c,
                    )@[i2][j2] + dot_prefix(a@[i2], bt@[j2], n as int),
                forall|i2: int, j2: int|
                    row_lo <= i2 < row_lo + s && bj * s <= j2 < n ==> #[trigger] c@[i2][j2] == old(
                        c,
                    )@[i2][j2],
                forall|i2: int, j2: int|
                    row_lo + s <= i2 < n && 0 <= j2 < n ==> #[trigger] c@[i2][j2] == old(
                        c,
                    )@[i2][j2],
            decreases bnum - bj,
        {
            proof {
                assert(bj * s + s <= bnum * s && (bj + 1) * s == bj * s + s) by (nonlinear_arith)
                    requires
                        bj < bnum,
                        1 <= s,
                ;
            }
            let col_lo: usize = bj * s;
            let mut bk: usize = 0;
            while bk < bnum
                invariant
                    bk <= bnum,
                    c.wf(),
                    c.spec_dim() == n,
                    forall|i2: int, j2: int|
                        0 <= i2 < row_lo && 0 <= j2 < n ==> #[trigger] c@[i2][j2] == old(
                            c,
                        )@[i2][j2] + dot_prefix(a@[i2], bt@[j2], n as int),
                    forall|i2: int, j2: int|
                        row_lo <= i2 < row_lo + s && 0 <= j2 < col_lo ==> #[trigger] c@[i2][j2]
                            == old(c)@[i2][j2] + dot_prefix(a@[i2], bt@[j2], n as int),
                    forall|i2: int, j2: int|
                        row_lo <= i2 < row_lo + s && col_lo <= j2 < col_lo + s
                            ==> #[trigger] c@[i2][j2] == old(c)@[i2][j2] + dot_prefix(
                            a@[i2],
                            bt@[j2],
                            bk * s,
                        ),
                    forall|i2: int, j2: int|
                        row_lo <= i2 < row_lo + s && col_lo + s <= j2 < n ==> #[trigger] c@[i2][j2]
                            == old(c)@[i2][j2],
                    forall|i2: int, j2: int|
                        row_lo + s <= i2 < n && 0 <= j2 < n ==> #[trigger] c@[i2][j2] == old(
                            c,
                        )@[i2][j2],
                decreases bnum - bk,
            {
                proof {
                    assert(bk * s + s <= bnum * s && (bk + 1) * s == bk * s + s)
                        by (nonlinear_arith)
                        requires
                            bk < bnum,
                            1 <= s,
                    ;
                }
                let k_lo: usize = bk * s;
                let mut ri: usize = row_lo;
                while ri < row_lo + s
                    invariant
                        row_lo <= ri <= row_lo + s,
                        c.wf(),
                        c.spec_dim() == n,
                        forall|i2: int, j2: int|
                            0 <= i2 < row_lo && 0 <= j2 < n ==> #[trigger] c@[i2][j2] == old(
                                c,
                            )@[i2][j2] + dot_prefix(a@[i2], bt@[j2], n as int),
                        forall|i2: int, j2: int|
                            row_lo <= i2 < row_lo + s && 0 <= j2 < col_lo ==> #[trigger] c@[i2][j2]
                                == old(c)@[i2][j2] + dot_prefix(a@[i2], bt@[j2], n as int),
                        forall|i2: int, j2: int|
                            row_lo <= i2 < ri && col_lo <= j2 < col_lo + s ==> #[trigger] c@[i2][j2]
                                == old(c)@[i2][j2] + dot_prefix(a@[i2], bt@[j2], k_lo + s),
                        forall|i2: int, j2: int|
                            ri <= i2 < row_lo + s && col_lo <= j2 < col_lo + s
                                ==> #[trigger] c@[i2][j2] == old(c)@[i2][j2] + dot_prefix(
                                a@[i2],
                                bt@[j2],
                                k_lo as int,
                            ),
                        forall|i2: int, j2: int|
                            row_lo <= i2 < row_lo + s && col_lo + s <= j2 < n
                                ==> #[trigger] c@[i2][j2] == old(c)@[i2][j2],
                        forall|i2: int, j2: int|
                            row_lo + s <= i2 < n && 0 <= j2 < n ==> #[trigger] c@[i2][j2] == old(
                                c,
                            )@[i2][j2],
                    decreases row_lo + s - ri,
                {
                    let mut cj: usize = col_lo;
                    while cj < col_lo + s
                        invariant
                            col_lo <= cj <= col_lo + s,
                            c.wf(),
                            c.spec_dim() == n,
                            forall|i2: int, j2: int|
                                0 <= i2 < row_lo && 0 <= j2 < n ==> #[trigger] c@[i2][j2] == old(
                                    c,
                                )@[i2][j2] + dot_prefix(a@[i2], bt@[j2], n as int),
                            forall|i2: int, j2: int|
                                row_lo <= i2 < row_lo + s && 0 <= j2 < col_lo
                                    ==> #[trigger] c@[i2][j2] == old(c)@[i2][j2] + dot_prefix(
                                    a@[i2],
                                    bt@[j2],
                                    n as int,
                                ),
                            forall|i2: int, j2: int|
                                row_lo <= i2 < ri && col_lo <= j2 < col_lo + s
                                    ==> #[trigger] c@[i2][j2] == old(c)@[i2][j2] + dot_prefix(
                                    a@[i2],
                                    bt@[j2],
                                    k_lo + s,
                                ),
                            forall|j2: int|
                                col_lo <= j2 < cj ==> #[trigger] c@[ri as int][j2] == old(
                                    c,
                                )@[ri as int][j2] + dot_prefix(a@[ri as int], bt@[j2], k_lo + s),
                            forall|j2: int|
                                cj <= j2 < col_lo + s ==> #[trigger] c@[ri as int][j2] == old(
                                    c,
                                )@[ri as int][j2] + dot_prefix(
                                    a@[ri as int],
                                    bt@[j2],
                                    k_lo as int,
                                ),
                            forall|i2: int, j2: int|
                                ri < i2 < row_lo + s && col_lo <= j2 < col_lo + s
                                    ==> #[trigger] c@[i2][j2] == old(c)@[i2][j2] + dot_prefix(
                                    a@[i2],
                                    bt@[j2],
                                    k_lo as int,
                                ),
                            forall|i2: int, j2: int|
                                row_lo <= i2 < row_lo + s && col_lo + s <= j2 < n
                                    ==> #[trigger] c@[i2][j2] == old(c)@[i2][j2],
                            forall|i2: int, j2: int|
                                row_lo + s <= i2 < n && 0 <= j2 < n ==> #[trigger] c@[i2][j2]
                                    == old(c)@[i2][j2],
                        decreases col_lo + s - cj,
                    {
                        let mut acc: i64 = 0;
                        let mut mk: usize = k_lo;
                        while mk < k_lo + s
                            invariant
                                k_lo <= mk <= k_lo + s,
                                acc == dot_prefix(a@[ri as int], bt@[cj as int], mk as int)
                                    - dot_prefix(a@[ri as int], bt@[cj as int], k_lo as int),
                                -35184372088832 <= acc <= 35184372088832,
                            decreases k_lo + s - mk,
                        {
                            proof {
                                lemma_step_bounds(
                                    a@[ri as int],
                                    bt@[cj as int],
                                    mk as int,
                                    n as int,
                                );
                                lemma_dot_prefix_bound(
                                    a@[ri as int],
                                    bt@[cj as int],
                                    k_lo as int,
                                    65536,
                                );
                            }
                            let arm: i64 = a.get(ri, mk);
                            let btm: i64 = bt.get(cj, mk);
                            acc = acc + arm * btm;
                            mk = mk + 1;
                        }
                        proof {
                            lemma_dot_prefix_bound(
                                a@[ri as int],
                                bt@[cj as int],
                                k_lo as int,
                                65536,
                            );
                            lemma_dot_prefix_bound(
                                a@[ri as int],
                                bt@[cj as int],
                                k_lo + s,
                                65536,
                            );
                        }
                        let cur: i64 = c.get(ri, cj);
                        c.set(ri, cj, cur + acc);
                        cj = cj + 1;
                    }
                    ri = ri + 1;
                }
                bk = bk + 1;
            }
            bj = bj + 1;
        }
        bi = bi + 1;
    }
    proof {
        assert forall|i: int, j: int| 0 <= i < n && 0 <= j < n implies #[trigger] c@[i][j] == old(
            c,
        )@[i][j] + prod_entry(a@, transpose_spec(bt@), i, j) by {
            lemma_column_of_transpose(bt@, n as int, j);
        }
    }
}

} // verus!
