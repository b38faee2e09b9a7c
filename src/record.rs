//! Fixed-layout binary codec for one lidar point.
//!
//! Floating-point fields are carried as their IEEE-754 bit patterns
//! (`u32` for single precision, `u64` for double precision), so the codec is
//! exact on every input, NaN payloads included.
use vstd::bytes::{
    spec_u32_from_le_bytes, spec_u32_to_le_bytes, spec_u64_from_le_bytes, spec_u64_to_le_bytes,
    u32_from_le_bytes, u32_to_le_bytes, u64_from_le_bytes, u64_to_le_bytes,
    lemma_auto_spec_u32_to_from_le_bytes, lemma_auto_spec_u64_to_from_le_bytes,
};
use vstd::prelude::*;
use vstd::slice::slice_subrange;

verus! {

/// Width in bytes of one encoded point, input and output alike.
pub const POINT_SIZE: usize = 26;

/// One decoded input point.
#[derive(Clone, Copy, Debug, PartialEq, Eq, Structural)]
pub struct LidarPoint {
    /// Bit pattern of an `f32`, meters.
    pub x: u32,
    /// Bit pattern of an `f32`, meters.
    pub y: u32,
    /// Bit pattern of an `f32`, meters.
    pub z: u32,
    /// Bit pattern of an `f32`.
    pub intensity: u32,
    pub tag: u8,
    /// Originating scan line (ring id).
    pub line: u8,
    /// Bit pattern of an `f64`.
    pub timestamp: u64,
}

/// One projected (bird's-eye-view) point: same layout, vertical axis flattened.
#[derive(Clone, Copy, Debug, PartialEq, Eq, Structural)]
pub struct BevPoint {
    pub x: u32,
    pub y: u32,
    /// Always the bit pattern of `0.0f32` for a projected point.
    pub z: u32,
    pub intensity: u32,
    pub tag: u8,
    pub line: u8,
    pub timestamp: u64,
}

/// The `u32` stored little-endian at `off`.
pub open spec fn u32_at(buf: Seq<u8>, off: int) -> u32 {
    spec_u32_from_le_bytes(buf.subrange(off, off + 4))
}

/// The `u64` stored little-endian at `off`.
pub open spec fn u64_at(buf: Seq<u8>, off: int) -> u64 {
    spec_u64_from_le_bytes(buf.subrange(off, off + 8))
}

/// Whether a whole point fits in `buf` at `off`.
pub open spec fn fits_at(buf: Seq<u8>, off: int) -> bool {
    0 <= off && off + POINT_SIZE <= buf.len()
}

/// The point whose 26 bytes start at `off`.
pub open spec fn point_at(buf: Seq<u8>, off: int) -> LidarPoint {
    LidarPoint {
        x: u32_at(buf, off),
        y: u32_at(buf, off + 4),
        z: u32_at(buf, off + 8),
        intensity: u32_at(buf, off + 12),
        tag: buf[off + 16],
        line: buf[off + 17],
        timestamp: u64_at(buf, off + 18),
    }
}

/// The 26 bytes that encode `p`.
pub open spec fn bev_bytes(p: BevPoint) -> Seq<u8> {
    spec_u32_to_le_bytes(p.x) + spec_u32_to_le_bytes(p.y) + spec_u32_to_le_bytes(p.z)
        + spec_u32_to_le_bytes(p.intensity) + seq![p.tag, p.line] + spec_u64_to_le_bytes(
        p.timestamp,
    )
}

/// Bit pattern of `0.0f32`.
pub const ZERO_F32: u32 = 0;

/// The projection of one point: every field kept but `z`, which becomes zero.
pub open spec fn bev_of(p: LidarPoint) -> BevPoint {
    BevPoint {
        x: p.x,
        y: p.y,
        z: ZERO_F32,
        intensity: p.intensity,
        tag: p.tag,
        line: p.line,
        timestamp: p.timestamp,
    }
}

impl LidarPoint {
    /// Decodes the point at `offset`; `None` when fewer than 26 bytes remain there.
    pub fn from_bytes(data: &[u8], offset: usize) -> (r: Option<LidarPoint>)
        ensures
            r is Some <==> fits_at(data@, offset as int),
            r is Some ==> r->0 == point_at(data@, offset as int),
    {
        if offset > data.len() || data.len() - offset < POINT_SIZE {
            return None;
        }
        let x = u32_from_le_bytes(slice_subrange(data, offset, offset + 4));
        let y = u32_from_le_bytes(slice_subrange(data, offset + 4, offset + 8));
        let z = u32_from_le_bytes(slice_subrange(data, offset + 8, offset + 12));
        let intensity = u32_from_le_bytes(slice_subrange(data, offset + 12, offset + 16));
        let tag = data[offset + 16];
        let line = data[offset + 17];
        let timestamp = u64_from_le_bytes(slice_subrange(data, offset + 18, offset + 26));
        Some(LidarPoint { x, y, z, intensity, tag, line, timestamp })
    }

    /// Projects this point onto the ground plane.
    pub fn to_bev(&self) -> (r: BevPoint)
        ensures
            r == bev_of(*self),
    {
        BevPoint {
            x: self.x,
            y: self.y,
            z: ZERO_F32,
            intensity: self.intensity,
            tag: self.tag,
            line: self.line,
            timestamp: self.timestamp,
        }
    }
}

impl BevPoint {
    /// Encodes this point as 26 little-endian bytes.
    pub fn to_bytes(&self) -> (r: Vec<u8>)
        ensures
            r@ == bev_bytes(*self),
            r@.len() == POINT_SIZE,
    {
        proof {
            lemma_auto_spec_u32_to_from_le_bytes();
            lemma_auto_spec_u64_to_from_le_bytes();
        }
        let mut bytes = u32_to_le_bytes(self.x);
        let mut part = u32_to_le_bytes(self.y);
        bytes.append(&mut part);
        let mut part = u32_to_le_bytes(self.z);
        bytes.append(&mut part);
        let mut part = u32_to_le_bytes(self.intensity);
        bytes.append(&mut part);
        bytes.push(self.tag);
        bytes.push(self.line);
        let mut part = u64_to_le_bytes(self.timestamp);
        bytes.append(&mut part);
        assert(bytes@ =~= bev_bytes(*self));
        bytes
    }
}

/// The input-shaped point with the same fields as `p`.
pub open spec fn lidar_of(p: BevPoint) -> LidarPoint {
    LidarPoint {
        x: p.x,
        y: p.y,
        z: p.z,
        intensity: p.intensity,
        tag: p.tag,
        line: p.line,
        timestamp: p.timestamp,
    }
}

/// Decoding the encoding of a point gives back each of its fields.
pub proof fn lemma_round_trip(p: BevPoint)
    ensures
        bev_bytes(p).len() == POINT_SIZE,
        fits_at(bev_bytes(p), 0),
        point_at(bev_bytes(p), 0) == lidar_of(p),
{
    lemma_auto_spec_u32_to_from_le_bytes();
    lemma_auto_spec_u64_to_from_le_bytes();
    let b = bev_bytes(p);
    assert(b.subrange(0, 4) =~= spec_u32_to_le_bytes(p.x));
    assert(b.subrange(4, 8) =~= spec_u32_to_le_bytes(p.y));
    assert(b.subrange(8, 12) =~= spec_u32_to_le_bytes(p.z));
    assert(b.subrange(12, 16) =~= spec_u32_to_le_bytes(p.intensity));
    assert(b.subrange(18, 26) =~= spec_u64_to_le_bytes(p.timestamp));
}

/// A point reads the same from a buffer as from its own 26-byte window.
pub proof fn lemma_point_at_window(buf: Seq<u8>, off: int)
    requires
        fits_at(buf, off),
    ensures
        point_at(buf, off) == point_at(buf.subrange(off, off + POINT_SIZE), 0),
{
    let w = buf.subrange(off, off + POINT_SIZE);
    assert(w.subrange(0, 4) =~= buf.subrange(off, off + 4));
    assert(w.subrange(4, 8) =~= buf.subrange(off + 4, off + 8));
    assert(w.subrange(8, 12) =~= buf.subrange(off + 8, off + 12));
    assert(w.subrange(12, 16) =~= buf.subrange(off + 12, off + 16));
    assert(w.subrange(18, 26) =~= buf.subrange(off + 18, off + 26));
}

} // verus!
