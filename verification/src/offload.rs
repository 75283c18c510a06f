//! Planning of the data-parallel grayscale dispatch: one invocation per
//! pixel, partitioned into groups of a fixed size.

use vstd::prelude::*;

verus! {

/// Invocations per work group.
pub const WORKGROUP_SIZE: u32 = 256;

/// Sizes of one dispatch.
#[derive(Clone, Copy, Debug, PartialEq, Eq, Structural)]
pub struct DispatchPlan {
    /// Invocations needed: one per pixel.
    pub pixel_count: u32,
    /// Bytes of the input, output and staging buffers.
    pub byte_size: u64,
    /// Work groups to dispatch.
    pub workgroup_count: u32,
}

/// The least number of groups of `group_size` that cover `items`.
pub open spec fn groups_covering(items: int, group_size: int) -> int {
    (items + group_size - 1) / group_size
}

/// `groups_covering` is the ceiling of the quotient: that many groups
/// cover the items and one fewer does not.
pub proof fn lemma_groups_cover(items: int, group_size: int)
    requires
        0 <= items,
        0 < group_size,
    ensures
        groups_covering(items, group_size) * group_size >= items,
        (groups_covering(items, group_size) - 1) * group_size < items,
        0 <= groups_covering(items, group_size) <= items,
{
    let g = groups_covering(items, group_size);
    let total = items + group_size - 1;
    vstd::arithmetic::div_mod::lemma_fundamental_div_mod(total, group_size);
    vstd::arithmetic::div_mod::lemma_mod_bound(total, group_size);
    assert(group_size * g == g * group_size) by (nonlinear_arith);
    assert((g - 1) * group_size == g * group_size - group_size) by (nonlinear_arith);
    assert(0 <= g) by (nonlinear_arith)
        requires
            g * group_size >= items,
            0 <= items,
            0 < group_size,
            (g - 1) * group_size < items,
    ;
    assert(g <= items) by (nonlinear_arith)
        requires
            (g - 1) * group_size < items,
            1 <= group_size,
            0 <= items,
            0 <= g,
    ;
}

/// Sizes for transforming a `width` by `height` image, or `None` when the
/// pixel count does not fit the dispatch's 32-bit counter.
pub fn plan_dispatch(width: u32, height: u32) -> (plan: Option<DispatchPlan>)
    ensures
        plan is Some <==> width * height <= u32::MAX,
        plan matches Some(p) ==> p.pixel_count == width * height && p.byte_size == width * height
            * 4 && p.workgroup_count == groups_covering(width * height, WORKGROUP_SIZE as int),
{
    assert((width as int) * (height as int) <= 0xFFFF_FFFF * 0xFFFF_FFFF) by (nonlinear_arith)
        requires
            0 <= width <= 0xFFFF_FFFF,
            0 <= height <= 0xFFFF_FFFF,
    ;
    let pixels: u64 = (width as u64) * (height as u64);
    if pixels > u32::MAX as u64 {
        return None;
    }
    let groups: u64 = (pixels + (WORKGROUP_SIZE as u64 - 1)) / (WORKGROUP_SIZE as u64);
    Some(
        DispatchPlan {
            pixel_count: pixels as u32,
            byte_size: pixels * 4,
            workgroup_count: groups as u32,
        },
    )
}

} // verus!
