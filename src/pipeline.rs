//! One frame through decode, projection and encoding.
use crate::encode::{
    bev_frame_id_of, encode_frame, frame_bytes, frame_metadata, is_point_layout, BevFrame,
};
use crate::frame::{decode_frame, decoded_frame};
use crate::project::{project, projected};
use crate::record::{BevPoint, POINT_SIZE};
use vstd::prelude::*;

verus! {

/// The projected points that a buffer yields under a vertical window.
pub open spec fn kept_points(buf: Seq<u8>, stride: int, z_min: u32, z_max: u32) -> Seq<BevPoint> {
    projected(decoded_frame(buf, stride), z_min, z_max)
}

/// Decodes `data` at `point_stride`, keeps the points whose `z` lies in
/// `[z_min, z_max]`, and encodes them as a frame named after
/// `source_frame_id`. `None` exactly when the kept points would overflow the
/// 32-bit sizes of a frame.
pub fn process_frame(
    data: &[u8],
    point_stride: usize,
    source_frame_id: &str,
    z_min: u32,
    z_max: u32,
) -> (r: Option<BevFrame>)
    requires
        point_stride >= 1,
    ensures
        r is Some <==> kept_points(data@, point_stride as int, z_min, z_max).len() * POINT_SIZE
            <= u32::MAX,
        r matches Some(f) ==> {
            let kept = kept_points(data@, point_stride as int, z_min, z_max);
            &&& f.data@ == frame_bytes(kept)
            &&& f.metadata == frame_metadata(kept.len())
            &&& is_point_layout(f.fields@)
            &&& f.frame_id@ == bev_frame_id_of(source_frame_id@)
        },
{
    let points = decode_frame(data, point_stride);
    let bev = project(&points, z_min, z_max);
    if bev.len() > (u32::MAX as usize) / POINT_SIZE {
        return None;
    }
    Some(encode_frame(&bev, source_frame_id))
}

} // verus!
