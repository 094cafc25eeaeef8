//! The vector multiply-reduce primitive: multiply two 4-lane vectors
//! lane-wise, and horizontally sum a 4-lane vector to one scalar. This
//! is the portable scalar implementation; a native vector-instruction
//! mapping must agree with it lane for lane.

use vstd::prelude::*;

use crate::model::{MAX_ENTRY, MAX_ENTRY_PRODUCT};

verus! {

/// Lane-wise product of two 4-lane vectors: lane `t` of the result is
/// `v1[t] * v2[t]`.
pub fn multiply_vector_size4(v1: [i64; 4], v2: [i64; 4]) -> (r: [i64; 4])
    requires
        forall|t: int| 0 <= t < 4 ==> -MAX_ENTRY <= #[trigger] v1@[t] <= MAX_ENTRY,
        forall|t: int| 0 <= t < 4 ==> -MAX_ENTRY <= #[trigger] v2@[t] <= MAX_ENTRY,
    ensures
        forall|t: int| 0 <= t < 4 ==> #[trigger] r@[t] == v1@[t] * v2@[t],
        forall|t: int|
            0 <= t < 4 ==> -MAX_ENTRY_PRODUCT <= #[trigger] r@[t] <= MAX_ENTRY_PRODUCT,
{
    proof {
        assert forall|t: int|
            0 <= t < 4 implies -MAX_ENTRY_PRODUCT <= #[trigger] (v1@[t] * v2@[t])
            <= MAX_ENTRY_PRODUCT by {
            assert(-(65536 * 65536) <= v1@[t] * v2@[t] <= 65536 * 65536) by (nonlinear_arith)
                requires
                    -65536 <= v1@[t] <= 65536,
                    -65536 <= v2@[t] <= 65536,
            ;
        }
    }
    [v1[0] * v2[0], v1[1] * v2[1], v1[2] * v2[2], v1[3] * v2[3]]
}

/// Horizontal sum of a 4-lane vector: the sum of its four lanes.
pub fn horizontal_sum_size4(v: [i64; 4]) -> (r: i64)
    requires
        forall|t: int|
            0 <= t < 4 ==> -MAX_ENTRY_PRODUCT <= #[trigger] v@[t] <= MAX_ENTRY_PRODUCT,
    ensures
        r == v@[0] + v@[1] + v@[2] + v@[3],
{
    v[0] + v[1] + v[2] + v[3]
}

} // verus!
