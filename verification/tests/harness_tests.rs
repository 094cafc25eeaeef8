use gemm_bench::check::{check, CheckFailure};
use gemm_bench::harness::{
    flop_count, kernel_order, run_benchmark, run_kernel, BenchError, KernelId, Layout, WriteMode,
};
use gemm_bench::matrix::Matrix;

fn mat(n: usize, values: &[i64]) -> Matrix {
    assert_eq!(values.len(), n * n);
    Matrix::from_flat(n, values.to_vec())
}

fn entries(m: &Matrix) -> Vec<i64> {
    let n = m.dim();
    let mut out = Vec::new();
    for i in 0..n {
        for j in 0..n {
            out.push(m.get(i, j));
        }
    }
    out
}

fn reference_product(n: usize, a: &[i64], b: &[i64]) -> Vec<i64> {
    let mut out = vec![0i64; n * n];
    for i in 0..n {
        for j in 0..n {
            let mut sum = 0i64;
            for k in 0..n {
                sum += a[i * n + k] * b[k * n + j];
            }
            out[i * n + j] = sum;
        }
    }
    out
}

const N4: usize = 4;
const A4: [i64; 16] = [2, 0, -1, 5, 3, 3, 7, -4, 0, 1, 1, 2, 6, -2, 8, 9];
const B4: [i64; 16] = [1, 4, -2, 0, 0, 5, 3, 3, -6, 2, 2, 1, 7, 7, 0, -3];

#[test]
fn registry_has_the_five_kernels_in_harness_order() {
    let order = kernel_order();
    assert_eq!(
        order,
        vec![
            KernelId::Naive,
            KernelId::LocalAccumulator,
            KernelId::TransposedAccess,
            KernelId::VectorLane,
            KernelId::Blocked,
        ]
    );
}

#[test]
fn registry_declares_write_modes_and_layouts() {
    assert_eq!(KernelId::Naive.write_mode(), WriteMode::Accumulate);
    assert_eq!(KernelId::LocalAccumulator.write_mode(), WriteMode::Accumulate);
    assert_eq!(KernelId::TransposedAccess.write_mode(), WriteMode::Accumulate);
    assert_eq!(KernelId::VectorLane.write_mode(), WriteMode::Assign);
    assert_eq!(KernelId::Blocked.write_mode(), WriteMode::Accumulate);

    assert_eq!(KernelId::Naive.layout(), Layout::Natural);
    assert_eq!(KernelId::LocalAccumulator.layout(), Layout::Natural);
    assert_eq!(KernelId::TransposedAccess.layout(), Layout::Transposed);
    assert_eq!(KernelId::VectorLane.layout(), Layout::Transposed);
    assert_eq!(KernelId::Blocked.layout(), Layout::Transposed);
}

#[test]
fn registry_names_match_the_kernel_entry_points() {
    assert_eq!(KernelId::Naive.name(), "matmul_gemm");
    assert_eq!(KernelId::LocalAccumulator.name(), "matmul_gemm_local_accumulator");
    assert_eq!(KernelId::TransposedAccess.name(), "matmul_gemm_local_transposed");
    assert_eq!(KernelId::VectorLane.name(), "matmul_gemm_simple_neon");
    assert_eq!(KernelId::Blocked.name(), "matmul_gemm_block");
}

#[test]
fn dispatcher_runs_every_variant_to_the_same_product() {
    let a = mat(N4, &A4);
    let b = mat(N4, &B4);
    let bt = b.transpose();
    let expect = reference_product(N4, &A4, &B4);
    for id in kernel_order() {
        let mut c = Matrix::zero(N4);
        run_kernel(id, &a, &b, &bt, &mut c, 2);
        assert_eq!(entries(&c), expect);
    }
}

#[test]
fn flop_count_is_two_n_cubed() {
    assert_eq!(flop_count(1024), 2_147_483_648);
    assert_eq!(flop_count(2048), 17_179_869_184);
    assert_eq!(flop_count(1), 2);
    assert_eq!(flop_count(0), 0);
}

#[test]
fn throughput_formula_for_one_second_at_1024() {
    // One kernel run at n = 1024 in exactly one second comes to about
    // 2.147 GFLOP/s.
    let flop = flop_count(1024);
    let elapsed = 1.0f64;
    let gflops = flop as f64 / elapsed / 1e9;
    assert!((gflops - 2.147483648).abs() < 1e-12);
}

#[test]
fn benchmark_succeeds_against_the_true_product() {
    let truth_vals = reference_product(N4, &A4, &B4);
    let a = mat(N4, &A4);
    let b = mat(N4, &B4);
    let truth = mat(N4, &truth_vals);
    let r = run_benchmark(&a, &b, &truth, 2, 1);
    assert!(r.is_ok());
}

#[test]
fn benchmark_accepts_differences_strictly_within_the_tolerance() {
    let mut truth_vals = reference_product(N4, &A4, &B4);
    truth_vals[5] += 3;
    let a = mat(N4, &A4);
    let b = mat(N4, &B4);
    let truth = mat(N4, &truth_vals);
    assert!(run_benchmark(&a, &b, &truth, 2, 4).is_ok());
    assert!(run_benchmark(&a, &b, &truth, 2, 3).is_err());
}

#[test]
fn benchmark_reports_the_first_mismatch_against_the_first_kernel() {
    let mut truth_vals = reference_product(N4, &A4, &B4);
    // Corrupt two cells; the scan must report the earlier one.
    truth_vals[1 * N4 + 2] += 50;
    truth_vals[3 * N4 + 0] -= 50;
    let expect = reference_product(N4, &A4, &B4);
    let a = mat(N4, &A4);
    let b = mat(N4, &B4);
    let truth = mat(N4, &truth_vals);
    match run_benchmark(&a, &b, &truth, 2, 1) {
        Err(BenchError::Mismatch { kernel, failure }) => {
            assert_eq!(kernel, KernelId::Naive);
            assert_eq!(failure.row, 1);
            assert_eq!(failure.col, 2);
            assert_eq!(failure.got, expect[1 * N4 + 2]);
            assert_eq!(failure.want, expect[1 * N4 + 2] + 50);
        },
        other => panic!("expected a mismatch, got {:?}", other.map(|_| ())),
    }
}

#[test]
fn benchmark_rejects_a_dimension_not_divisible_by_four() {
    let n = 6;
    let vals = vec![1i64; 36];
    let a = mat(n, &vals);
    let b = mat(n, &vals);
    let truth = mat(n, &vals);
    match run_benchmark(&a, &b, &truth, 2, 1) {
        Err(BenchError::VectorSizeInvalid) => {},
        other => panic!("expected the vector-lane precondition to fail, got {:?}", other.map(|_| ())),
    }
}

#[test]
fn benchmark_rejects_a_block_edge_that_does_not_divide_the_dimension() {
    let vals = vec![1i64; 16];
    let a = mat(N4, &vals);
    let b = mat(N4, &vals);
    let truth = mat(N4, &vals);
    match run_benchmark(&a, &b, &truth, 3, 1) {
        Err(BenchError::BlockSizeInvalid) => {},
        other => panic!("expected the block precondition to fail, got {:?}", other.map(|_| ())),
    }
    match run_benchmark(&a, &b, &truth, 0, 1) {
        Err(BenchError::BlockSizeInvalid) => {},
        other => panic!("expected the block precondition to fail, got {:?}", other.map(|_| ())),
    }
}

#[test]
fn benchmark_accepts_an_empty_dimension() {
    let a = Matrix::zero(0);
    let b = Matrix::zero(0);
    let truth = Matrix::zero(0);
    assert!(run_benchmark(&a, &b, &truth, 1, 1).is_ok());
}

#[test]
fn check_passes_equal_matrices_and_reports_the_first_failing_cell() {
    let c_vals: Vec<i64> = (0..9).collect();
    let c = mat(3, &c_vals);
    let same = mat(3, &c_vals);
    assert!(check(&c, &same, 1).is_ok());

    let mut t_vals = c_vals.clone();
    t_vals[4] += 10;
    t_vals[7] += 99;
    let truth = mat(3, &t_vals);
    match check(&c, &truth, 10) {
        Err(CheckFailure { row, col, got, want }) => {
            assert_eq!((row, col), (1, 1));
            assert_eq!(got, 4);
            assert_eq!(want, 14);
        },
        Ok(()) => panic!("expected the scan to fail"),
    }
    // A difference strictly below the tolerance passes that cell.
    let mut near_vals = c_vals.clone();
    near_vals[4] += 9;
    let near = mat(3, &near_vals);
    assert!(check(&c, &near, 10).is_ok());
}
