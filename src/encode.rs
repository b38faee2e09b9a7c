//! Serialising projected points into one frame with its field layout.
use crate::frame::decoded_frame;
use crate::record::{bev_bytes, lemma_point_at_window, lemma_round_trip, lidar_of, BevPoint, POINT_SIZE};
use vstd::prelude::*;
use vstd::string::StringExecFns;

verus! {

/// Scalar type code of an 8-bit unsigned field.
pub const UINT8: u8 = 2;

/// Scalar type code of a 32-bit float field.
pub const FLOAT32: u8 = 7;

/// Scalar type code of a 64-bit float field.
pub const FLOAT64: u8 = 8;

/// One named scalar sub-field of a point.
#[derive(Clone, Debug)]
pub struct FieldDescriptor {
    pub name: String,
    /// Byte offset within the point.
    pub offset: u32,
    /// Scalar type code: `UINT8`, `FLOAT32` or `FLOAT64`.
    pub datatype: u8,
    /// Elements of that type at the offset.
    pub count: u32,
}

/// Shape of an output buffer.
#[derive(Clone, Copy, Debug, PartialEq, Eq, Structural)]
pub struct FrameMetadata {
    /// Rows; a frame is always one unstructured row.
    pub height: u32,
    /// Points in the row.
    pub width: u32,
    /// Bytes per point.
    pub point_step: u32,
    /// Bytes per row.
    pub row_step: u32,
    pub is_bigendian: bool,
    /// No invalid points are ever emitted.
    pub is_dense: bool,
}

/// One encoded output frame.
#[derive(Clone, Debug)]
pub struct BevFrame {
    /// Identifier derived from the source frame's.
    pub frame_id: String,
    pub metadata: FrameMetadata,
    pub fields: Vec<FieldDescriptor>,
    pub data: Vec<u8>,
}

/// Whether `f` describes one scalar named `name` at `offset` of type `datatype`.
pub open spec fn field_is(f: FieldDescriptor, name: Seq<char>, offset: u32, datatype: u8) -> bool {
    f.name@ == name && f.offset == offset && f.datatype == datatype && f.count == 1
}

/// Whether `fields` is the seven-entry layout of a point, in wire order.
pub open spec fn is_point_layout(fields: Seq<FieldDescriptor>) -> bool {
    &&& fields.len() == 7
    &&& field_is(fields[0], "x"@, 0, FLOAT32)
    &&& field_is(fields[1], "y"@, 4, FLOAT32)
    &&& field_is(fields[2], "z"@, 8, FLOAT32)
    &&& field_is(fields[3], "intensity"@, 12, FLOAT32)
    &&& field_is(fields[4], "tag"@, 16, UINT8)
    &&& field_is(fields[5], "line"@, 17, UINT8)
    &&& field_is(fields[6], "timestamp"@, 18, FLOAT64)
}

/// The encodings of the points of `s`, one after another.
pub open spec fn frame_bytes(s: Seq<BevPoint>) -> Seq<u8>
    decreases s.len(),
{
    if s.len() == 0 {
        Seq::empty()
    } else {
        frame_bytes(s.drop_last()) + bev_bytes(s.last())
    }
}

/// The metadata of a frame of `n` points.
pub open spec fn frame_metadata(n: nat) -> FrameMetadata {
    FrameMetadata {
        height: 1,
        width: n as u32,
        point_step: POINT_SIZE as u32,
        row_step: (n * POINT_SIZE) as u32,
        is_bigendian: false,
        is_dense: true,
    }
}

/// The identifier of the frame derived from `source`.
pub open spec fn bev_frame_id_of(source: Seq<char>) -> Seq<char> {
    source + "_bev"@
}

fn field(name: &str, offset: u32, datatype: u8) -> (r: FieldDescriptor)
    ensures
        field_is(r, name@, offset, datatype),
{
    FieldDescriptor { name: name.to_owned(), offset, datatype, count: 1 }
}

/// The fixed field layout of an output point.
pub fn point_fields() -> (r: Vec<FieldDescriptor>)
    ensures
        is_point_layout(r@),
{
    let mut fields: Vec<FieldDescriptor> = Vec::new();
    fields.push(field("x", 0, FLOAT32));
    fields.push(field("y", 4, FLOAT32));
    fields.push(field("z", 8, FLOAT32));
    fields.push(field("intensity", 12, FLOAT32));
    fields.push(field("tag", 16, UINT8));
    fields.push(field("line", 17, UINT8));
    fields.push(field("timestamp", 18, FLOAT64));
    fields
}

/// Appends the `_bev` suffix to a source frame identifier.
pub fn bev_frame_id(source: &str) -> (r: String)
    ensures
        r@ == bev_frame_id_of(source@),
{
    let mut id = source.to_owned();
    id.append("_bev");
    id
}

proof fn lemma_frame_bytes_len(s: Seq<BevPoint>)
    ensures
        frame_bytes(s).len() == s.len() * POINT_SIZE,
    decreases s.len(),
{
    if s.len() > 0 {
        lemma_frame_bytes_len(s.drop_last());
        lemma_round_trip(s.last());
        assert(s.len() * POINT_SIZE == (s.len() - 1) * POINT_SIZE + POINT_SIZE) by (nonlinear_arith);
    }
}

proof fn lemma_frame_bytes_at(s: Seq<BevPoint>, k: int)
    requires
        0 <= k < s.len(),
    ensures
        frame_bytes(s).subrange(k * POINT_SIZE, k * POINT_SIZE + POINT_SIZE) == bev_bytes(s[k]),
    decreases s.len(),
{
    let init = s.drop_last();
    lemma_frame_bytes_len(init);
    lemma_round_trip(s.last());
    if k < s.len() - 1 {
        lemma_frame_bytes_at(init, k);
        assert(k * POINT_SIZE + POINT_SIZE <= init.len() * POINT_SIZE) by (nonlinear_arith)
            requires
                k < init.len(),
        ;
        assert(frame_bytes(s).subrange(k * POINT_SIZE, k * POINT_SIZE + POINT_SIZE)
            =~= frame_bytes(init).subrange(k * POINT_SIZE, k * POINT_SIZE + POINT_SIZE));
    } else {
        assert(frame_bytes(s).subrange(k * POINT_SIZE, k * POINT_SIZE + POINT_SIZE)
            =~= bev_bytes(s.last()));
    }
}

/// Decoding an encoded frame at the point width gives back every point, in
/// order, with all its fields.
pub proof fn lemma_frame_round_trip(s: Seq<BevPoint>)
    ensures
        decoded_frame(frame_bytes(s), POINT_SIZE as int).len() == s.len(),
        forall|k: int|
            0 <= k < s.len() ==> #[trigger] decoded_frame(frame_bytes(s), POINT_SIZE as int)[k]
                == lidar_of(s[k]),
{
    let b = frame_bytes(s);
    lemma_frame_bytes_len(s);
    if s.len() > 0 {
        assert((s.len() * POINT_SIZE - POINT_SIZE) / (POINT_SIZE as int) == s.len() - 1)
            by (nonlinear_arith);
    }
    assert forall|k: int| 0 <= k < s.len() implies #[trigger] decoded_frame(
        b,
        POINT_SIZE as int,
    )[k] == lidar_of(s[k]) by {
        assert(k * POINT_SIZE + POINT_SIZE <= s.len() * POINT_SIZE) by (nonlinear_arith)
            requires
                k < s.len(),
        ;
        lemma_frame_bytes_at(s, k);
        lemma_point_at_window(b, k * POINT_SIZE);
        lemma_round_trip(s[k]);
    }
}

/// Concatenates the encodings of `points`, in order, and describes the result.
pub fn encode_frame(points: &Vec<BevPoint>, source_frame_id: &str) -> (r: BevFrame)
    requires
        points@.len() * POINT_SIZE <= u32::MAX,
    ensures
        r.data@ == frame_bytes(points@),
        r.data@.len() == points@.len() * POINT_SIZE,
        r.metadata == frame_metadata(points@.len()),
        r.metadata.width == points@.len(),
        r.metadata.row_step == points@.len() * POINT_SIZE,
        is_point_layout(r.fields@),
        r.frame_id@ == bev_frame_id_of(source_frame_id@),
{
    let mut data: Vec<u8> = Vec::new();
    let mut i: usize = 0;
    while i < points.len()
        invariant
            i <= points@.len(),
            data@ == frame_bytes(points@.subrange(0, i as int)),
        decreases points@.len() - i,
    {
        let mut bytes = points[i].to_bytes();
        data.append(&mut bytes);
        proof {
            assert(points@.subrange(0, i + 1).drop_last() =~= points@.subrange(0, i as int));
        }
        i = i + 1;
    }
    proof {
        assert(points@.subrange(0, points@.len() as int) =~= points@);
        lemma_frame_bytes_len(points@);
    }
    let n = points.len();
    let metadata = FrameMetadata {
        height: 1,
        width: n as u32,
        point_step: POINT_SIZE as u32,
        row_step: (n * POINT_SIZE) as u32,
        is_bigendian: false,
        is_dense: true,
    };
    BevFrame { frame_id: bev_frame_id(source_frame_id), metadata, fields: point_fields(), data }
}

} // verus!
