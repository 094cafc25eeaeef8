//! A microbenchmark harness for dense square matrix multiplication.
//!
//! Five kernels -- a naive triple loop, a local-accumulator variant, a
//! transposed-operand variant, a cache-blocked variant, and a four-lane
//! vector variant -- all compute the same product `C[i][j] = sum_k
//! A[i][k] * B[k][j]`, and each is proved equivalent to that canonical
//! definition. A harness runs the kernels in a fixed order on a fresh
//! output matrix and compares each result against a reference product,
//! stopping at the first mismatching cell.

pub mod check;
pub mod harness;
pub mod kernels;
pub mod matrix;
pub mod model;
pub mod vector4;
