use gemm_bench::kernels::{
    matmul_gemm, matmul_gemm_block, matmul_gemm_local_accumulator, matmul_gemm_local_transposed,
    matmul_gemm_simple_neon,
};
use gemm_bench::matrix::Matrix;
use gemm_bench::vector4::{horizontal_sum_size4, multiply_vector_size4};

fn mat(n: usize, values: &[i64]) -> Matrix {
    assert_eq!(values.len(), n * n);
    Matrix::from_flat(n, values.to_vec())
}

fn entries(m: &Matrix) -> Vec<i64> {
    let n = m.dim();
    let mut out = Vec::new();
    for i in 0..n {
        for j in 0..n {
            out.push(m.get(i, j));
        }
    }
    out
}

/// The canonical triple-loop product, written independently of the
/// library.
fn reference_product(n: usize, a: &[i64], b: &[i64]) -> Vec<i64> {
    let mut out = vec![0i64; n * n];
    for i in 0..n {
        for j in 0..n {
            let mut sum = 0i64;
            for k in 0..n {
                sum += a[i * n + k] * b[k * n + j];
            }
            out[i * n + j] = sum;
        }
    }
    out
}

const N4: usize = 4;
const A4: [i64; 16] = [1, 2, 3, 4, 5, 6, 7, 8, 9, 10, 11, 12, 13, 14, 15, 16];
const B4: [i64; 16] = [17, -3, 2, 0, 5, 8, -1, 4, 6, 7, 9, -2, 1, 0, 3, 11];

#[test]
fn naive_kernel_matches_canonical_product() {
    let a = mat(N4, &A4);
    let b = mat(N4, &B4);
    let mut c = Matrix::zero(N4);
    matmul_gemm(&a, &b, &mut c);
    assert_eq!(entries(&c), reference_product(N4, &A4, &B4));
}

#[test]
fn local_accumulator_kernel_matches_canonical_product() {
    let a = mat(N4, &A4);
    let b = mat(N4, &B4);
    let mut c = Matrix::zero(N4);
    matmul_gemm_local_accumulator(&a, &b, &mut c);
    assert_eq!(entries(&c), reference_product(N4, &A4, &B4));
}

#[test]
fn transposed_kernel_matches_canonical_product() {
    let a = mat(N4, &A4);
    let b = mat(N4, &B4);
    let bt = b.transpose();
    let mut c = Matrix::zero(N4);
    matmul_gemm_local_transposed(&a, &bt, &mut c);
    assert_eq!(entries(&c), reference_product(N4, &A4, &B4));
}

#[test]
fn blocked_kernel_matches_canonical_product() {
    let a = mat(N4, &A4);
    let b = mat(N4, &B4);
    let bt = b.transpose();
    for block_size in [1, 2, 4] {
        let mut c = Matrix::zero(N4);
        matmul_gemm_block(&a, &bt, &mut c, block_size);
        assert_eq!(entries(&c), reference_product(N4, &A4, &B4));
    }
}

#[test]
fn vector_lane_kernel_matches_canonical_product() {
    let a = mat(N4, &A4);
    let b = mat(N4, &B4);
    let bt = b.transpose();
    let mut c = Matrix::zero(N4);
    matmul_gemm_simple_neon(&a, &bt, &mut c);
    assert_eq!(entries(&c), reference_product(N4, &A4, &B4));
}

#[test]
fn all_kernels_agree_on_an_eight_by_eight() {
    let n = 8;
    let a_vals: Vec<i64> = (0..64).map(|x| (x * 7 - 100) % 23).collect();
    let b_vals: Vec<i64> = (0..64).map(|x| (x * 13 + 5) % 17 - 8).collect();
    let expect = reference_product(n, &a_vals, &b_vals);
    let a = mat(n, &a_vals);
    let b = mat(n, &b_vals);
    let bt = b.transpose();

    let mut c = Matrix::zero(n);
    matmul_gemm(&a, &b, &mut c);
    assert_eq!(entries(&c), expect);

    let mut c = Matrix::zero(n);
    matmul_gemm_local_accumulator(&a, &b, &mut c);
    assert_eq!(entries(&c), expect);

    let mut c = Matrix::zero(n);
    matmul_gemm_local_transposed(&a, &bt, &mut c);
    assert_eq!(entries(&c), expect);

    let mut c = Matrix::zero(n);
    matmul_gemm_simple_neon(&a, &bt, &mut c);
    assert_eq!(entries(&c), expect);

    let mut c = Matrix::zero(n);
    matmul_gemm_block(&a, &bt, &mut c, 2);
    assert_eq!(entries(&c), expect);
}

#[test]
fn blocked_kernel_covers_a_dimension_with_an_odd_block_edge() {
    let n = 6;
    let a_vals: Vec<i64> = (0..36).map(|x| x % 11 - 5).collect();
    let b_vals: Vec<i64> = (0..36).map(|x| (x * 3) % 13 - 6).collect();
    let a = mat(n, &a_vals);
    let b = mat(n, &b_vals);
    let bt = b.transpose();
    for block_size in [1, 2, 3, 6] {
        let mut c = Matrix::zero(n);
        matmul_gemm_block(&a, &bt, &mut c, block_size);
        assert_eq!(entries(&c), reference_product(n, &a_vals, &b_vals));
    }
}

#[test]
fn identity_times_matrix_gives_the_matrix_back() {
    let a = Matrix::identity(N4);
    let b = mat(N4, &B4);
    let bt = b.transpose();

    let mut c = Matrix::zero(N4);
    matmul_gemm(&a, &b, &mut c);
    assert_eq!(entries(&c), B4.to_vec());

    let mut c = Matrix::zero(N4);
    matmul_gemm_local_accumulator(&a, &b, &mut c);
    assert_eq!(entries(&c), B4.to_vec());

    let mut c = Matrix::zero(N4);
    matmul_gemm_local_transposed(&a, &bt, &mut c);
    assert_eq!(entries(&c), B4.to_vec());

    let mut c = Matrix::zero(N4);
    matmul_gemm_simple_neon(&a, &bt, &mut c);
    assert_eq!(entries(&c), B4.to_vec());

    let mut c = Matrix::zero(N4);
    matmul_gemm_block(&a, &bt, &mut c, 2);
    assert_eq!(entries(&c), B4.to_vec());
}

#[test]
fn zero_operands_give_zero_output() {
    let a = Matrix::zero(N4);
    let b = Matrix::zero(N4);
    let bt = b.transpose();

    let mut c = Matrix::zero(N4);
    matmul_gemm(&a, &b, &mut c);
    assert_eq!(entries(&c), vec![0i64; 16]);

    let mut c = Matrix::zero(N4);
    matmul_gemm_local_accumulator(&a, &b, &mut c);
    assert_eq!(entries(&c), vec![0i64; 16]);

    let mut c = Matrix::zero(N4);
    matmul_gemm_local_transposed(&a, &bt, &mut c);
    assert_eq!(entries(&c), vec![0i64; 16]);

    let mut c = Matrix::zero(N4);
    matmul_gemm_simple_neon(&a, &bt, &mut c);
    assert_eq!(entries(&c), vec![0i64; 16]);

    let mut c = Matrix::zero(N4);
    matmul_gemm_block(&a, &bt, &mut c, 4);
    assert_eq!(entries(&c), vec![0i64; 16]);
}

#[test]
fn accumulate_kernel_run_twice_without_reset_doubles_the_values() {
    let a = mat(N4, &A4);
    let b = mat(N4, &B4);
    let single = reference_product(N4, &A4, &B4);

    let mut c = Matrix::zero(N4);
    matmul_gemm(&a, &b, &mut c);
    matmul_gemm(&a, &b, &mut c);
    let doubled: Vec<i64> = single.iter().map(|v| 2 * v).collect();
    assert_eq!(entries(&c), doubled);
}

#[test]
fn accumulate_kernel_adds_to_prior_contents() {
    let a = mat(N4, &A4);
    let b = mat(N4, &B4);
    let prior: Vec<i64> = (0..16).map(|x| x - 8).collect();
    let mut c = mat(N4, &prior);
    matmul_gemm_local_accumulator(&a, &b, &mut c);
    let expect: Vec<i64> = reference_product(N4, &A4, &B4)
        .iter()
        .zip(prior.iter())
        .map(|(p, q)| p + q)
        .collect();
    assert_eq!(entries(&c), expect);
}

#[test]
fn assign_kernel_overwrites_prior_contents() {
    let a = mat(N4, &A4);
    let b = mat(N4, &B4);
    let bt = b.transpose();
    let stale: Vec<i64> = vec![999; 16];
    let mut c = mat(N4, &stale);
    matmul_gemm_simple_neon(&a, &bt, &mut c);
    assert_eq!(entries(&c), reference_product(N4, &A4, &B4));
}

#[test]
fn transpose_swaps_rows_and_columns() {
    let b = mat(3, &[1, 2, 3, 4, 5, 6, 7, 8, 9]);
    let bt = b.transpose();
    assert_eq!(entries(&bt), vec![1, 4, 7, 2, 5, 8, 3, 6, 9]);
}

#[test]
fn transpose_twice_gives_the_matrix_back() {
    let vals: Vec<i64> = (0..25).map(|x| x * x - 11).collect();
    let b = mat(5, &vals);
    let back = b.transpose().transpose();
    assert_eq!(entries(&back), vals);
}

#[test]
fn vector_primitive_multiplies_lane_wise() {
    let r = multiply_vector_size4([1, 2, 3, 4], [5, 6, 7, 8]);
    assert_eq!(r, [5, 12, 21, 32]);
    let r = multiply_vector_size4([-2, 0, 9, -7], [3, 44, -9, -7]);
    assert_eq!(r, [-6, 0, -81, 49]);
}

#[test]
fn horizontal_sum_adds_the_four_lanes() {
    assert_eq!(horizontal_sum_size4([5, 12, 21, 32]), 70);
    assert_eq!(horizontal_sum_size4([-6, 0, -81, 49]), -38);
    assert_eq!(horizontal_sum_size4([0, 0, 0, 0]), 0);
}

#[test]
fn vector_primitive_agrees_with_scalar_dot_product() {
    let v1: [i64; 4] = [13, -4, 0, 25];
    let v2: [i64; 4] = [-7, 16, 999, 2];
    let scalar: i64 = (0..4).map(|t| v1[t] * v2[t]).sum();
    assert_eq!(horizontal_sum_size4(multiply_vector_size4(v1, v2)), scalar);
}

#[test]
fn matrix_store_basics() {
    let mut m = Matrix::zero(3);
    assert_eq!(m.dim(), 3);
    assert_eq!(m.get(1, 2), 0);
    m.set(1, 2, 42);
    assert_eq!(m.get(1, 2), 42);
    assert_eq!(m.get(2, 1), 0);
    m.reset_zero();
    assert_eq!(m.get(1, 2), 0);
    assert!(m.is_bounded_by(0));

    let id = Matrix::identity(3);
    assert_eq!(entries(&id), vec![1, 0, 0, 0, 1, 0, 0, 0, 1]);
    assert!(id.is_bounded_by(1));
    assert!(!id.is_bounded_by(0));
}
