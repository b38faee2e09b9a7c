//! Vertical-window filter and bird's-eye-view projection.
use crate::float::{f32_le, f32_le_spec};
use crate::record::{bev_of, BevPoint, LidarPoint, ZERO_F32};
use vstd::prelude::*;

verus! {

/// Bit pattern of `-0.1f32`, the usual lower end of the vertical window.
pub const DEFAULT_Z_MIN: u32 = 0xBDCC_CCCD;

/// Bit pattern of `0.2f32`, the usual upper end of the vertical window.
pub const DEFAULT_Z_MAX: u32 = 0x3E4C_CCCD;

/// Whether `z_min <= z <= z_max` holds as floats (false when any is NaN).
pub open spec fn in_window(z: u32, z_min: u32, z_max: u32) -> bool {
    f32_le_spec(z_min, z) && f32_le_spec(z, z_max)
}

/// The projections of the points of `s` whose `z` lies in the window, in order.
pub open spec fn projected(s: Seq<LidarPoint>, z_min: u32, z_max: u32) -> Seq<BevPoint>
    decreases s.len(),
{
    if s.len() == 0 {
        Seq::empty()
    } else {
        let rest = projected(s.drop_last(), z_min, z_max);
        if in_window(s.last().z, z_min, z_max) {
            rest.push(bev_of(s.last()))
        } else {
            rest
        }
    }
}

/// Every projected point has a zero `z`, and there are no more of them than
/// input points.
pub proof fn lemma_projected_flat(s: Seq<LidarPoint>, z_min: u32, z_max: u32)
    ensures
        projected(s, z_min, z_max).len() <= s.len(),
        forall|i: int|
            0 <= i < projected(s, z_min, z_max).len() ==> (#[trigger] projected(
                s,
                z_min,
                z_max,
            )[i]).z == ZERO_F32,
    decreases s.len(),
{
    if s.len() > 0 {
        lemma_projected_flat(s.drop_last(), z_min, z_max);
    }
}

/// Each projected point comes from an input point whose `z` lies in the
/// window, and the inputs they come from appear in the same order: the
/// result lists their strictly increasing positions.
pub proof fn lemma_projected_sources(s: Seq<LidarPoint>, z_min: u32, z_max: u32) -> (idx: Seq<int>)
    ensures
        idx.len() == projected(s, z_min, z_max).len(),
        forall|i: int|
            0 <= i < idx.len() ==> 0 <= #[trigger] idx[i] < s.len() && in_window(
                s[idx[i]].z,
                z_min,
                z_max,
            ) && projected(s, z_min, z_max)[i] == bev_of(s[idx[i]]),
        forall|i: int, j: int| 0 <= i < j < idx.len() ==> #[trigger] idx[i] < #[trigger] idx[j],
    decreases s.len(),
{
    if s.len() == 0 {
        Seq::empty()
    } else {
        let init = s.drop_last();
        let prev = lemma_projected_sources(init, z_min, z_max);
        assert forall|i: int| 0 <= i < prev.len() implies #[trigger] prev[i] < init.len()
            && s[prev[i]] == init[prev[i]] by {}
        if in_window(s.last().z, z_min, z_max) {
            let idx = prev.push(s.len() - 1);
            assert forall|i: int| 0 <= i < idx.len() implies 0 <= #[trigger] idx[i] < s.len()
                && in_window(s[idx[i]].z, z_min, z_max) && projected(s, z_min, z_max)[i]
                == bev_of(s[idx[i]]) by {
                if i < prev.len() {
                    assert(idx[i] == prev[i]);
                }
            }
            assert forall|i: int, j: int| 0 <= i < j < idx.len() implies #[trigger] idx[i]
                < #[trigger] idx[j] by {
                if j < prev.len() {
                    assert(idx[i] == prev[i] && idx[j] == prev[j]);
                } else {
                    assert(idx[i] == prev[i]);
                }
            }
            idx
        } else {
            prev
        }
    }
}

/// Keeps the points whose `z` lies in `[z_min, z_max]` (both ends included,
/// compared as `f32`), in their order, and flattens each onto the ground plane.
pub fn project(points: &Vec<LidarPoint>, z_min: u32, z_max: u32) -> (r: Vec<BevPoint>)
    ensures
        r@ == projected(points@, z_min, z_max),
        r@.len() <= points@.len(),
        forall|i: int| 0 <= i < r@.len() ==> (#[trigger] r@[i]).z == ZERO_F32,
{
    let mut out: Vec<BevPoint> = Vec::new();
    let mut i: usize = 0;
    while i < points.len()
        invariant
            i <= points@.len(),
            out@ == projected(points@.subrange(0, i as int), z_min, z_max),
        decreases points@.len() - i,
    {
        let p = points[i];
        if f32_le(z_min, p.z) && f32_le(p.z, z_max) {
            out.push(p.to_bev());
        }
        proof {
            assert(points@.subrange(0, i + 1).drop_last() =~= points@.subrange(0, i as int));
        }
        i = i + 1;
    }
    proof {
        assert(points@.subrange(0, points@.len() as int) =~= points@);
        lemma_projected_flat(points@, z_min, z_max);
    }
    out
}

} // verus!
