//! The mathematical model: square matrices as sequences of sequences of
//! integers, the canonical matrix product, and the lemmas the kernels
//! and the harness are proved against.

use vstd::prelude::*;

verus! {

/// Largest dimension a matrix may have.
pub const MAX_DIM: usize = 4096;

/// Largest magnitude an input entry may have.
pub const MAX_ENTRY: i64 = 65536;

/// Largest magnitude a product of two input entries may have.
pub const MAX_ENTRY_PRODUCT: i64 = MAX_ENTRY * MAX_ENTRY;

/// Largest magnitude an output entry may start from when a kernel
/// accumulates into it.
pub const MAX_ACC: i64 = 1152921504606846976;

/// `m` is an `n` by `n` grid.
pub open spec fn is_square(m: Seq<Seq<int>>, n: int) -> bool {
    m.len() == n && forall|i: int| 0 <= i < n ==> (#[trigger] m[i]).len() == n
}

/// Every entry of `m` lies in `[-b, b]`.
pub open spec fn bounded(m: Seq<Seq<int>>, b: int) -> bool {
    forall|i: int, j: int|
        0 <= i < m.len() && 0 <= j < m[i].len() ==> -b <= #[trigger] m[i][j] <= b
}

/// Every entry of `m` is zero.
pub open spec fn all_zero(m: Seq<Seq<int>>) -> bool {
    forall|i: int, j: int|
        0 <= i < m.len() && 0 <= j < m[i].len() ==> #[trigger] m[i][j] == 0
}

/// The sum of the first `k` products of corresponding entries of `r`
/// and `s`: `r[0]*s[0] + ... + r[k-1]*s[k-1]`.
pub open spec fn dot_prefix(r: Seq<int>, s: Seq<int>, k: int) -> int
    decreases k,
{
    if k <= 0 {
        0
    } else {
        dot_prefix(r, s, k - 1) + r[k - 1] * s[k - 1]
    }
}

/// The inner product of `r` and `s`.
pub open spec fn dot(r: Seq<int>, s: Seq<int>) -> int {
    dot_prefix(r, s, r.len() as int)
}

/// Column `j` of `m`, as a sequence.
pub open spec fn column(m: Seq<Seq<int>>, j: int) -> Seq<int> {
    Seq::new(m.len(), |k: int| m[k][j])
}

/// The canonical product entry: `sum_k a[i][k] * b[k][j]`.
pub open spec fn prod_entry(a: Seq<Seq<int>>, b: Seq<Seq<int>>, i: int, j: int) -> int {
    dot(a[i], column(b, j))
}

/// The transpose of a square matrix: entry `(i, j)` of the result is
/// entry `(j, i)` of `m`.
pub open spec fn transpose_spec(m: Seq<Seq<int>>) -> Seq<Seq<int>> {
    Seq::new(m.len(), |i: int| Seq::new(m.len(), |j: int| m[j][i]))
}

/// The `n` by `n` identity matrix.
pub open spec fn identity_spec(n: int) -> Seq<Seq<int>> {
    Seq::new(n as nat, |i: int| Seq::new(n as nat, |j: int| if i == j { 1int } else { 0int }))
}

/// The matrix obtained by accumulating the product of `a` and `b` into
/// `c`: entry `(i, j)` of the result is `c[i][j] + sum_k a[i][k]*b[k][j]`.
pub open spec fn accumulate_product(
    c: Seq<Seq<int>>,
    a: Seq<Seq<int>>,
    b: Seq<Seq<int>>,
) -> Seq<Seq<int>> {
    Seq::new(c.len(), |i: int| Seq::new(c[i].len(), |j: int| c[i][j] + prod_entry(a, b, i, j)))
}

/// A prefix of an inner product over entries bounded by `b` is bounded
/// by `k * b * b`.
pub proof fn lemma_dot_prefix_bound(r: Seq<int>, s: Seq<int>, k: int, b: int)
    requires
        0 <= k <= r.len(),
        k <= s.len(),
        0 <= b,
        forall|t: int| 0 <= t < k ==> -b <= #[trigger] r[t] <= b,
        forall|t: int| 0 <= t < k ==> -b <= #[trigger] s[t] <= b,
    ensures
        -(k * b * b) <= dot_prefix(r, s, k) <= k * b * b,
    decreases k,
{
    if k > 0 {
        lemma_dot_prefix_bound(r, s, k - 1, b);
        assert(-(b * b) <= r[k - 1] * s[k - 1] <= b * b) by (nonlinear_arith)
            requires
                -b <= r[k - 1] <= b,
                -b <= s[k - 1] <= b,
                0 <= b,
        ;
        assert((k - 1) * b * b + b * b == k * b * b) by (nonlinear_arith);
    }
}

/// Every entry of a column of a bounded square matrix is bounded.
pub proof fn lemma_column_bounded(m: Seq<Seq<int>>, n: int, j: int, b: int)
    requires
        is_square(m, n),
        bounded(m, b),
        0 <= j < n,
    ensures
        forall|t: int| 0 <= t < n ==> -b <= #[trigger] column(m, j)[t] <= b,
{
    assert forall|t: int| 0 <= t < n implies -b <= #[trigger] column(m, j)[t] <= b by {
        assert(column(m, j)[t] == m[t][j]);
    }
}

/// Bounds used by the kernels at each accumulation step: with entries
/// bounded by the input bound and the dimension within range, one
/// product and every inner-product prefix stay far from the 64-bit
/// limits.
pub proof fn lemma_step_bounds(r: Seq<int>, s: Seq<int>, k: int, n: int)
    requires
        0 <= k < n,
        n <= 4096,
        n <= r.len(),
        n <= s.len(),
        forall|t: int| 0 <= t < n ==> -65536 <= #[trigger] r[t] <= 65536,
        forall|t: int| 0 <= t < n ==> -65536 <= #[trigger] s[t] <= 65536,
    ensures
        -4294967296 <= r[k] * s[k] <= 4294967296,
        -17592186044416 <= dot_prefix(r, s, k) <= 17592186044416,
        -17592186044416 <= dot_prefix(r, s, k + 1) <= 17592186044416,
{
    lemma_dot_prefix_bound(r, s, k, 65536);
    lemma_dot_prefix_bound(r, s, k + 1, 65536);
    assert(-(65536 * 65536) <= r[k] * s[k] <= 65536 * 65536) by (nonlinear_arith)
        requires
            -65536 <= r[k] <= 65536,
            -65536 <= s[k] <= 65536,
    ;
}

/// Column `j` of the transpose of a square matrix is row `j` of the
/// matrix itself.
pub proof fn lemma_column_of_transpose(m: Seq<Seq<int>>, n: int, j: int)
    requires
        is_square(m, n),
        0 <= j < n,
    ensures
        column(transpose_spec(m), j) == m[j],
{
    assert(column(transpose_spec(m), j) =~= m[j]);
}

/// The transpose of a bounded square matrix is bounded by the same
/// bound.
pub proof fn lemma_transpose_bounded(m: Seq<Seq<int>>, n: int, b: int)
    requires
        is_square(m, n),
        bounded(m, b),
    ensures
        bounded(transpose_spec(m), b),
{
    assert forall|i: int, j: int|
        0 <= i < transpose_spec(m).len() && 0 <= j < transpose_spec(m)[i].len() implies -b
        <= #[trigger] transpose_spec(m)[i][j] <= b by {
        assert(transpose_spec(m)[i][j] == m[j][i]);
    }
}

/// Transposing twice gives the matrix back exactly.
pub proof fn lemma_transpose_involution(m: Seq<Seq<int>>, n: int)
    requires
        is_square(m, n),
    ensures
        transpose_spec(transpose_spec(m)) == m,
{
    assert(transpose_spec(transpose_spec(m)) =~~= m);
}

/// A prefix of an inner product whose left entries are all zero is zero.
pub proof fn lemma_dot_prefix_zero_left(r: Seq<int>, s: Seq<int>, k: int)
    requires
        forall|t: int| 0 <= t < k ==> #[trigger] r[t] == 0,
    ensures
        dot_prefix(r, s, k) == 0,
    decreases k,
{
    if k > 0 {
        lemma_dot_prefix_zero_left(r, s, k - 1);
    }
}

/// A prefix of an inner product against row `i` of the identity matrix
/// picks out `s[i]`, once the prefix goes past `i`.
proof fn lemma_dot_prefix_identity_row(n: int, i: int, s: Seq<int>, k: int)
    requires
        0 <= i < n,
        0 <= k <= n,
    ensures
        dot_prefix(identity_spec(n)[i], s, k) == if i < k { s[i] } else { 0 },
    decreases k,
{
    if k > 0 {
        lemma_dot_prefix_identity_row(n, i, s, k - 1);
    }
}

/// Multiplying by the identity matrix on the left gives the other
/// operand back: every product entry equals the corresponding entry of
/// `b`.
pub proof fn lemma_identity_product(b: Seq<Seq<int>>, n: int, i: int, j: int)
    requires
        is_square(b, n),
        0 <= i < n,
        0 <= j < n,
    ensures
        prod_entry(identity_spec(n), b, i, j) == b[i][j],
{
    lemma_dot_prefix_identity_row(n, i, column(b, j), n);
}

/// Every product entry of an all-zero left operand is zero, whatever
/// the right operand holds.
pub proof fn lemma_zero_product(a: Seq<Seq<int>>, b: Seq<Seq<int>>, n: int, i: int, j: int)
    requires
        is_square(a, n),
        all_zero(a),
        0 <= i < n,
        0 <= j < n,
    ensures
        prod_entry(a, b, i, j) == 0,
{
    lemma_dot_prefix_zero_left(a[i], column(b, j), n);
}

/// Accumulating the same product twice into an output that started all
/// zero leaves each cell at exactly double the single-call result: an
/// accumulate-mode kernel run again without resetting the output doubles
/// its values.
pub proof fn lemma_unreset_accumulate_doubles(
    c0: Seq<Seq<int>>,
    a: Seq<Seq<int>>,
    b: Seq<Seq<int>>,
    n: int,
    i: int,
    j: int,
)
    requires
        is_square(c0, n),
        all_zero(c0),
        0 <= i < n,
        0 <= j < n,
    ensures
        accumulate_product(accumulate_product(c0, a, b), a, b)[i][j] == 2 * prod_entry(
            a,
            b,
            i,
            j,
        ),
{
}

} // verus!
