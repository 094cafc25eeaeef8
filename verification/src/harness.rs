//! The benchmark harness: the kernel registry with each variant's
//! declared operand layout and write mode, the fixed execution order, a
//! dispatcher that always hands each kernel a freshly zeroed output,
//! the whole-run driver that verifies every kernel against the
//! reference and stops at the first mismatch, and the operation count
//! behind the throughput figure.

use vstd::prelude::*;

use crate::check::{cell_ok, check, row_major_before, CheckFailure, MAX_RESULT};
use crate::kernels::{
    kernel_inputs_ok, matmul_gemm, matmul_gemm_block, matmul_gemm_local_accumulator,
    matmul_gemm_local_transposed, matmul_gemm_simple_neon,
};
use crate::matrix::Matrix;
use crate::model::{
    bounded, lemma_dot_prefix_bound, lemma_transpose_bounded, prod_entry, transpose_spec, MAX_DIM,
    MAX_ENTRY,
};

verus! {

/// The five kernel variants, in the registry.
#[derive(Clone, Copy, Debug, PartialEq, Eq, Structural)]
pub enum KernelId {
    /// Naive triple loop.
    Naive,
    /// Local-accumulator variant.
    LocalAccumulator,
    /// Transposed-access variant.
    TransposedAccess,
    /// Vector-lane dot product.
    VectorLane,
    /// Blocked/tiled variant.
    Blocked,
}

/// How a kernel writes its output.
#[derive(Clone, Copy, Debug, PartialEq, Eq, Structural)]
pub enum WriteMode {
    /// Adds into the existing output (`+=`): the output must be zeroed
    /// immediately before the call.
    Accumulate,
    /// Overwrites the output (`=`): prior contents do not matter.
    Assign,
}

/// Which layout of the right operand a kernel requires.
#[derive(Clone, Copy, Debug, PartialEq, Eq, Structural)]
pub enum Layout {
    /// `B` as read.
    Natural,
    /// The transpose of `B`.
    Transposed,
}

impl KernelId {
    /// The write mode of this variant, a fixed fact about it.
    pub open spec fn spec_write_mode(self) -> WriteMode {
        match self {
            KernelId::VectorLane => WriteMode::Assign,
            _ => WriteMode::Accumulate,
        }
    }

    /// The write mode of this variant.
    pub fn write_mode(&self) -> (r: WriteMode)
        ensures
            r == self.spec_write_mode(),
    {
        match self {
            KernelId::VectorLane => WriteMode::Assign,
            _ => WriteMode::Accumulate,
        }
    }

    /// The layout of the right operand this variant requires, a fixed
    /// fact about it.
    pub open spec fn spec_layout(self) -> Layout {
        match self {
            KernelId::Naive => Layout::Natural,
            KernelId::LocalAccumulator => Layout::Natural,
            _ => Layout::Transposed,
        }
    }

    /// The layout of the right operand this variant requires.
    pub fn layout(&self) -> (r: Layout)
        ensures
            r == self.spec_layout(),
    {
        match self {
            KernelId::Naive => Layout::Natural,
            KernelId::LocalAccumulator => Layout::Natural,
            _ => Layout::Transposed,
        }
    }

    /// The display name of this variant, as the report prints it.
    pub fn name(&self) -> (r: &'static str)
        ensures
            self is Naive ==> r@ == "matmul_gemm"@,
            self is LocalAccumulator ==> r@ == "matmul_gemm_local_accumulator"@,
            self is TransposedAccess ==> r@ == "matmul_gemm_local_transposed"@,
            self is VectorLane ==> r@ == "matmul_gemm_simple_neon"@,
            self is Blocked ==> r@ == "matmul_gemm_block"@,
    {
        match self {
            KernelId::Naive => "matmul_gemm",
            KernelId::LocalAccumulator => "matmul_gemm_local_accumulator",
            KernelId::TransposedAccess => "matmul_gemm_local_transposed",
            KernelId::VectorLane => "matmul_gemm_simple_neon",
            KernelId::Blocked => "matmul_gemm_block",
        }
    }
}

/// The fixed order in which the harness runs the kernels.
pub open spec fn spec_kernel_order() -> Seq<KernelId> {
    seq![
        KernelId::Naive,
        KernelId::LocalAccumulator,
        KernelId::TransposedAccess,
        KernelId::VectorLane,
        KernelId::Blocked,
    ]
}

/// The fixed order in which the harness runs the kernels.
pub fn kernel_order() -> (r: Vec<KernelId>)
    ensures
        r@ == spec_kernel_order(),
{
    let mut r: Vec<KernelId> = Vec::new();
    r.push(KernelId::Naive);
    r.push(KernelId::LocalAccumulator);
    r.push(KernelId::TransposedAccess);
    r.push(KernelId::VectorLane);
    r.push(KernelId::Blocked);
    proof {
        assert(r@ =~= spec_kernel_order());
    }
    r
}

/// The preconditions a variant puts on the dimension and block edge.
pub open spec fn kernel_preconditions_ok(id: KernelId, n: int, block_size: int) -> bool {
    match id {
        KernelId::VectorLane => n % 4 == 0,
        KernelId::Blocked => 1 <= block_size && n % block_size == 0,
        _ => true,
    }
}

/// Run one kernel. The dispatcher owns the layout choice: it hands the
/// kernel whichever of `b` (natural) and `bt` (transposed) the variant
/// declares, so every variant computes the canonical product of `a` and
/// `b`. An accumulate-mode variant adds that product to the prior
/// output; the assign-mode variant overwrites it.
pub fn run_kernel(
    id: KernelId,
    a: &Matrix,
    b: &Matrix,
    bt: &Matrix,
    c: &mut Matrix,
    block_size: usize,
)
    requires
        kernel_inputs_ok(*a, *b, *old(c)),
        bt.wf(),
        bt@ == transpose_spec(b@),
        bt.spec_dim() == a.spec_dim(),
        kernel_preconditions_ok(id, a.spec_dim(), block_size as int),
    ensures
        final(c).wf(),
        final(c).spec_dim() == a.spec_dim(),
        forall|i: int, j: int|
            0 <= i < a.spec_dim() && 0 <= j < a.spec_dim() ==> #[trigger] final(c)@[i][j] == (
            if id.spec_write_mode() is Accumulate {
                old(c)@[i][j]
            } else {
                0
            }) + prod_entry(a@, b@, i, j),
{
    proof {
        a.lemma_view_square();
        b.lemma_view_square();
        lemma_transpose_bounded(b@, b.spec_dim(), MAX_ENTRY as int);
        crate::model::lemma_transpose_involution(b@, b.spec_dim());
    }
    match id {
        KernelId::Naive => matmul_gemm(a, b, c),
        KernelId::LocalAccumulator => matmul_gemm_local_accumulator(a, b, c),
        KernelId::TransposedAccess => matmul_gemm_local_transposed(a, bt, c),
        KernelId::VectorLane => matmul_gemm_simple_neon(a, bt, c),
        KernelId::Blocked => matmul_gemm_block(a, bt, c, block_size),
    }
}

/// Why a benchmark run stopped.
#[derive(Debug)]
pub enum BenchError {
    /// The dimension is not a multiple of four, so the vector-lane
    /// kernel would not cover every inner-product term.
    VectorSizeInvalid,
    /// The block edge is zero or does not divide the dimension, so the
    /// blocked kernel would not cover the whole index space.
    BlockSizeInvalid,
    /// A kernel's output differed from the reference: the first failing
    /// kernel, in harness order, with the first offending cell.
    Mismatch {
        /// The kernel whose verification failed.
        kernel: KernelId,
        /// The first offending cell and both values.
        failure: CheckFailure,
    },
}

/// The number of floating-point operations one kernel run performs:
/// each of the `n^3` inner-product terms costs one multiply and one
/// add, `2 * n^3` in all. Throughput in GFLOP/s divides this count by
/// the elapsed seconds and by `10^9`.
pub fn flop_count(n: usize) -> (r: u64)
    requires
        n <= MAX_DIM,
    ensures
        r == 2 * (n as int) * (n as int) * (n as int),
{
    proof {
        assert(2 * (n as int) <= 8192 && 2 * (n as int) * (n as int) <= 33554432 && 2 * (
        n as int) * (n as int) * (n as int) <= 137438953472) by (nonlinear_arith)
            requires
                n <= 4096,
        ;
    }
    2 * (n as u64) * (n as u64) * (n as u64)
}

/// Run the whole benchmark sequence: check the variants' preconditions,
/// derive the transposed copy of `b` once, then run every kernel in the
/// fixed order, each on a freshly zeroed output, verifying each result
/// against `truth` with tolerance `tol` and stopping at the first
/// mismatch. Timing and reporting sit outside this function; it owns
/// the order, the resets and the verification.
///
/// Since every kernel computes the exact canonical product, the run
/// succeeds exactly when that product lies within the tolerance of the
/// reference everywhere; a mismatch is always reported against the
/// first kernel.
#[verifier::loop_isolation(false)]
pub fn run_benchmark(
    a: &Matrix,
    b: &Matrix,
    truth: &Matrix,
    block_size: usize,
    tol: i64,
) -> (r: Result<(), BenchError>)
    requires
        a.wf(),
        b.wf(),
        truth.wf(),
        b.spec_dim() == a.spec_dim(),
        truth.spec_dim() == a.spec_dim(),
        bounded(a@, MAX_ENTRY as int),
        bounded(b@, MAX_ENTRY as int),
        bounded(truth@, MAX_RESULT as int),
        0 < tol,
    ensures
        r is Err && r->Err_0 is VectorSizeInvalid <==> a.spec_dim() % 4 != 0,
        r is Err && r->Err_0 is BlockSizeInvalid <==> a.spec_dim() % 4 == 0 && (block_size == 0
            || a.spec_dim() % (block_size as int) != 0),
        r is Ok <==> kernel_preconditions_ok(KernelId::VectorLane, a.spec_dim(), block_size as int)
            && kernel_preconditions_ok(KernelId::Blocked, a.spec_dim(), block_size as int) && (
        forall|i: int, j: int|
            0 <= i < a.spec_dim() && 0 <= j < a.spec_dim() ==> -(tol as int) < #[trigger] prod_entry(
                a@,
                b@,
                i,
                j,
            ) - truth@[i][j] < tol as int),
        r is Err && r->Err_0 is Mismatch ==> ({
            let f = r->Err_0->Mismatch_failure;
            &&& r->Err_0->Mismatch_kernel == KernelId::Naive
            &&& 0 <= f.row < a.spec_dim()
            &&& 0 <= f.col < a.spec_dim()
            &&& f.got == prod_entry(a@, b@, f.row as int, f.col as int)
            &&& f.want == truth@[f.row as int][f.col as int]
            &&& !(-(tol as int) < f.got - f.want < tol as int)
            &&& forall|i: int, j: int|
                0 <= i < a.spec_dim() && 0 <= j < a.spec_dim() && row_major_before(
                    i,
                    j,
                    f.row as int,
                    f.col as int,
                ) ==> -(tol as int) < prod_entry(a@, b@, i, j) - truth@[i][j] < tol as int
        }),
{
    let n: usize = a.dim();
    if n % 4 != 0 {
        return Err(BenchError::VectorSizeInvalid);
    }
    if block_size == 0 || n % block_size != 0 {
        return Err(BenchError::BlockSizeInvalid);
    }
    let bt: Matrix = b.transpose();
    let order: Vec<KernelId> = kernel_order();
    let mut idx: usize = 0;
    while idx < order.len()
        invariant
            order@ == spec_kernel_order(),
            idx <= order.len(),
            a.wf(),
            b.wf(),
            truth.wf(),
            bt.wf(),
            b.spec_dim() == a.spec_dim(),
            truth.spec_dim() == a.spec_dim(),
            bt.spec_dim() == a.spec_dim(),
            bt@ == transpose_spec(b@),
            bounded(a@, MAX_ENTRY as int),
            bounded(b@, MAX_ENTRY as int),
            bounded(truth@, MAX_RESULT as int),
            0 < tol,
            a.spec_dim() % 4 == 0,
            1 <= block_size,
            a.spec_dim() % (block_size as int) == 0,
            idx > 0 ==> forall|i: int, j: int|
                0 <= i < a.spec_dim() && 0 <= j < a.spec_dim() ==> -(tol as int)
                    < #[trigger] prod_entry(a@, b@, i, j) - truth@[i][j] < tol as int,
        decreases order.len() - idx,
    {
        let id: KernelId = order[idx];
        let mut c: Matrix = Matrix::zero(n);
        run_kernel(id, a, b, &bt, &mut c, block_size);
        proof {
            a.lemma_view_square();
            b.lemma_view_square();
            assert forall|i: int, j: int|
                0 <= i < a.spec_dim() && 0 <= j < a.spec_dim() implies -(MAX_RESULT as int)
                <= #[trigger] c@[i][j] <= MAX_RESULT as int by {
                crate::model::lemma_column_bounded(b@, a.spec_dim(), j, MAX_ENTRY as int);
                lemma_dot_prefix_bound(a@[i], crate::model::column(b@, j), a.spec_dim(), 65536);
            }
        }
        let res: Result<(), CheckFailure> = check(&c, truth, tol);
        match res {
            Ok(()) => {
                proof {
                    assert forall|i: int, j: int|
                        0 <= i < a.spec_dim() && 0 <= j < a.spec_dim() implies -(tol as int)
                        < #[trigger] prod_entry(a@, b@, i, j) - truth@[i][j] < tol as int by {
                        assert(cell_ok(c@, truth@, i, j, tol as int));
                        assert(c@[i][j] == prod_entry(a@, b@, i, j));
                    }
                }
            },
            Err(f) => {
                return Err(BenchError::Mismatch { kernel: id, failure: f });
            },
        }
        idx = idx + 1;
    }
    Ok(())
}

} // verus!
