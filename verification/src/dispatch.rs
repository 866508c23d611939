//! How the per-vertex work is cut into groups for a device that runs a fixed
//! number of invocations together.

use vstd::prelude::*;

verus! {

/// The number of invocations that run together in one group.
pub const WORKGROUP_SIZE: u32 = 256;

/// The least number of groups of `group_size` that hold `total` items.
pub open spec fn spec_group_count(total: int, group_size: int) -> int {
    (total + group_size - 1) / group_size
}

/// Enough groups hold every item, and one group fewer would not.
pub proof fn lemma_groups_cover(total: int, group_size: int)
    requires
        total >= 0,
        group_size > 0,
    ensures
        spec_group_count(total, group_size) >= 0,
        spec_group_count(total, group_size) * group_size >= total,
        (spec_group_count(total, group_size) - 1) * group_size < total,
{
    let n = spec_group_count(total, group_size);
    assert(n >= 0 && n * group_size >= total && (n - 1) * group_size < total) by (nonlinear_arith)
        requires
            total >= 0,
            group_size > 0,
            n == (total + group_size - 1) / group_size,
    ;
}

/// The number of groups to dispatch so that each of `total` vertices is
/// updated by one invocation.
pub fn workgroup_count(total: u32, group_size: u32) -> (r: u32)
    requires
        group_size > 0,
    ensures
        r == spec_group_count(total as int, group_size as int),
        r * group_size >= total,
        (r - 1) * group_size < total,
{
    proof {
        lemma_groups_cover(total as int, group_size as int);
        let n = spec_group_count(total as int, group_size as int);
        assert(n <= total) by (nonlinear_arith)
            requires
                (n - 1) * group_size < total,
                group_size >= 1,
                total >= 0,
                n >= 0,
        ;
    }
    let wide: u64 = (total as u64 + group_size as u64 - 1) / (group_size as u64);
    wide as u32
}

/// The number of bytes that `count` items of `stride` bytes take, or nothing
/// where that number is beyond a `u64`.
pub fn buffer_size(count: usize, stride: u64) -> (r: Option<u64>)
    ensures
        match r {
            Some(n) => n == count * stride,
            None => count * stride > u64::MAX,
        },
{
    (count as u64).checked_mul(stride)
}

} // verus!
