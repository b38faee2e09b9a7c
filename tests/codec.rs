use livox_bev::encode::{encode_frame, point_fields, bev_frame_id, FLOAT32, FLOAT64, UINT8};
use livox_bev::float::{f32_le, f32_lt, f32_is_nan_bits};
use livox_bev::frame::decode_frame;
use livox_bev::pipeline::process_frame;
use livox_bev::project::{project, DEFAULT_Z_MAX, DEFAULT_Z_MIN};
use livox_bev::record::{BevPoint, LidarPoint, POINT_SIZE};
use livox_bev::summary::{summarize, LineCount};

fn raw_point(x: f32, y: f32, z: f32, intensity: f32, tag: u8, line: u8, timestamp: f64) -> Vec<u8> {
    let mut b = Vec::new();
    b.extend_from_slice(&x.to_le_bytes());
    b.extend_from_slice(&y.to_le_bytes());
    b.extend_from_slice(&z.to_le_bytes());
    b.extend_from_slice(&intensity.to_le_bytes());
    b.push(tag);
    b.push(line);
    b.extend_from_slice(&timestamp.to_le_bytes());
    b
}

fn lidar(x: f32, y: f32, z: f32, intensity: f32, tag: u8, line: u8, timestamp: f64) -> LidarPoint {
    LidarPoint {
        x: x.to_bits(),
        y: y.to_bits(),
        z: z.to_bits(),
        intensity: intensity.to_bits(),
        tag,
        line,
        timestamp: timestamp.to_bits(),
    }
}

#[test]
fn from_bytes_reads_little_endian_fields() {
    let buf = raw_point(1.0, 2.0, 0.05, 100.0, 1, 3, 123.456);
    assert_eq!(buf.len(), POINT_SIZE);
    let p = LidarPoint::from_bytes(&buf, 0).unwrap();
    assert_eq!(f32::from_bits(p.x), 1.0);
    assert_eq!(f32::from_bits(p.y), 2.0);
    assert_eq!(f32::from_bits(p.z), 0.05);
    assert_eq!(f32::from_bits(p.intensity), 100.0);
    assert_eq!(p.tag, 1);
    assert_eq!(p.line, 3);
    assert_eq!(f64::from_bits(p.timestamp), 123.456);
}

#[test]
fn from_bytes_at_offset_and_short_tail() {
    let mut buf = vec![0xAAu8; 3];
    buf.extend(raw_point(-4.5, 0.0, 1.0, 7.0, 9, 200, -1.0));
    let p = LidarPoint::from_bytes(&buf, 3).unwrap();
    assert_eq!(p, lidar(-4.5, 0.0, 1.0, 7.0, 9, 200, -1.0));
    assert_eq!(LidarPoint::from_bytes(&buf, 4), None);
    assert_eq!(LidarPoint::from_bytes(&buf, 100), None);
    assert_eq!(LidarPoint::from_bytes(&buf[..25], 0), None);
}

#[test]
fn encode_decode_round_trip() {
    let b = BevPoint {
        x: 1.5f32.to_bits(),
        y: (-2.25f32).to_bits(),
        z: 0,
        intensity: 42.0f32.to_bits(),
        tag: 7,
        line: 11,
        timestamp: 99.125f64.to_bits(),
    };
    let bytes = b.to_bytes();
    assert_eq!(bytes.len(), 26);
    assert_eq!(bytes, raw_point(1.5, -2.25, 0.0, 42.0, 7, 11, 99.125));
    let back = LidarPoint::from_bytes(&bytes, 0).unwrap();
    assert_eq!(back.x, b.x);
    assert_eq!(back.y, b.y);
    assert_eq!(back.z, b.z);
    assert_eq!(back.intensity, b.intensity);
    assert_eq!(back.tag, b.tag);
    assert_eq!(back.line, b.line);
    assert_eq!(back.timestamp, b.timestamp);
}

#[test]
fn to_bev_flattens_z_only() {
    let p = lidar(3.0, 4.0, 5.0, 6.0, 1, 2, 8.0);
    let b = p.to_bev();
    assert_eq!(f32::from_bits(b.z), 0.0);
    assert_eq!(b.z, 0.0f32.to_bits());
    assert_eq!((b.x, b.y, b.intensity, b.tag, b.line, b.timestamp), (p.x, p.y, p.intensity, p.tag, p.line, p.timestamp));
}

#[test]
fn decode_frame_empty_buffer() {
    assert!(decode_frame(&[], 26).is_empty());
}

#[test]
fn decode_frame_ignores_trailing_bytes() {
    let mut buf = raw_point(1.0, 0.0, 0.0, 0.0, 0, 0, 0.0);
    buf.extend(raw_point(2.0, 0.0, 0.0, 0.0, 0, 1, 0.0));
    buf.extend(vec![0u8; 10]);
    let pts = decode_frame(&buf, 26);
    assert_eq!(pts.len(), buf.len() / 26);
    assert_eq!(pts.len(), 2);
    assert_eq!(f32::from_bits(pts[0].x), 1.0);
    assert_eq!(f32::from_bits(pts[1].x), 2.0);
    assert_eq!(pts[1].line, 1);
}

#[test]
fn decode_frame_wide_stride() {
    let mut buf = raw_point(1.0, 0.0, 0.0, 0.0, 0, 0, 0.0);
    buf.extend(vec![0u8; 6]);
    buf.extend(raw_point(2.0, 0.0, 0.0, 0.0, 0, 0, 0.0));
    buf.extend(vec![0u8; 6]);
    buf.extend(vec![0u8; 20]);
    let pts = decode_frame(&buf, 32);
    assert_eq!(pts.len(), 2);
    assert_eq!(pts.len(), buf.len() / 32);
    assert_eq!(f32::from_bits(pts[1].x), 2.0);
}

#[test]
fn decode_frame_overlapping_stride() {
    let buf: Vec<u8> = (0..39u8).collect();
    let pts = decode_frame(&buf, 13);
    assert_eq!(pts.len(), 2);
    assert_eq!(pts[1].tag, 13 + 16);
    assert_eq!(pts[1].line, 13 + 17);
}

#[test]
fn float_comparison_matches_f32() {
    let vals = [
        0.0f32, -0.0, 1.0, -1.0, 0.2, -0.1, 0.05, 5.0, f32::INFINITY, f32::NEG_INFINITY, f32::NAN,
        -f32::NAN, f32::MIN_POSITIVE, -f32::MIN_POSITIVE, f32::MAX, f32::MIN, 1e-45, -1e-45,
    ];
    for a in vals.iter() {
        assert_eq!(f32_is_nan_bits(a.to_bits()), a.is_nan());
        for b in vals.iter() {
            assert_eq!(f32_le(a.to_bits(), b.to_bits()), a <= b, "{} <= {}", a, b);
            assert_eq!(f32_lt(a.to_bits(), b.to_bits()), a < b, "{} < {}", a, b);
        }
    }
}

#[test]
fn default_window_bounds() {
    assert_eq!(f32::from_bits(DEFAULT_Z_MIN), -0.1f32);
    assert_eq!(f32::from_bits(DEFAULT_Z_MAX), 0.2f32);
}

#[test]
fn project_keeps_window_in_order() {
    let pts = vec![
        lidar(1.0, 0.0, 0.05, 0.0, 0, 0, 0.0),
        lidar(2.0, 0.0, 5.0, 0.0, 0, 0, 0.0),
        lidar(3.0, 0.0, -0.1, 0.0, 0, 0, 0.0),
        lidar(4.0, 0.0, 0.2, 0.0, 0, 0, 0.0),
        lidar(5.0, 0.0, f32::NAN, 0.0, 0, 0, 0.0),
        lidar(6.0, 0.0, -0.2, 0.0, 0, 0, 0.0),
        lidar(7.0, 0.0, -0.0, 0.0, 0, 0, 0.0),
    ];
    let out = project(&pts, DEFAULT_Z_MIN, DEFAULT_Z_MAX);
    let xs: Vec<f32> = out.iter().map(|b| f32::from_bits(b.x)).collect();
    assert_eq!(xs, vec![1.0, 3.0, 4.0, 7.0]);
    assert!(out.iter().all(|b| b.z == 0.0f32.to_bits()));
}

#[test]
fn project_twice_with_window_excluding_zero_is_empty() {
    let pts = vec![lidar(1.0, 0.0, 0.5, 0.0, 0, 0, 0.0)];
    let lo = 0.1f32.to_bits();
    let hi = 1.0f32.to_bits();
    let once = project(&pts, lo, hi);
    assert_eq!(once.len(), 1);
    let again: Vec<LidarPoint> = once
        .iter()
        .map(|b| LidarPoint { x: b.x, y: b.y, z: b.z, intensity: b.intensity, tag: b.tag, line: b.line, timestamp: b.timestamp })
        .collect();
    assert!(project(&again, lo, hi).is_empty());
}

#[test]
fn encode_frame_cardinality_and_layout() {
    let pts: Vec<BevPoint> = (0..3u8)
        .map(|i| lidar(i as f32, 1.0, 9.0, 2.0, i, i, 0.5).to_bev())
        .collect();
    let f = encode_frame(&pts, "livox_frame");
    assert_eq!(f.data.len(), 3 * 26);
    assert_eq!(f.metadata.width, 3);
    assert_eq!(f.metadata.height, 1);
    assert_eq!(f.metadata.point_step, 26);
    assert_eq!(f.metadata.row_step, 78);
    assert!(!f.metadata.is_bigendian);
    assert!(f.metadata.is_dense);
    assert_eq!(f.frame_id, "livox_frame_bev");
    assert_eq!(&f.data[26..52], &pts[1].to_bytes()[..]);
    let names: Vec<(&str, u32, u8, u32)> =
        f.fields.iter().map(|d| (d.name.as_str(), d.offset, d.datatype, d.count)).collect();
    assert_eq!(
        names,
        vec![
            ("x", 0, FLOAT32, 1),
            ("y", 4, FLOAT32, 1),
            ("z", 8, FLOAT32, 1),
            ("intensity", 12, FLOAT32, 1),
            ("tag", 16, UINT8, 1),
            ("line", 17, UINT8, 1),
            ("timestamp", 18, FLOAT64, 1),
        ]
    );
    assert_eq!((UINT8, FLOAT32, FLOAT64), (2, 7, 8));
    assert_eq!(point_fields().len(), 7);
}

#[test]
fn encode_frame_empty() {
    let f = encode_frame(&Vec::new(), "");
    assert!(f.data.is_empty());
    assert_eq!(f.metadata.width, 0);
    assert_eq!(f.metadata.row_step, 0);
    assert_eq!(f.frame_id, "_bev");
}

#[test]
fn frame_id_suffix() {
    assert_eq!(bev_frame_id("lidar"), "lidar_bev");
}

#[test]
fn summarize_empty_is_none() {
    assert!(summarize(&Vec::new()).is_none());
}

#[test]
fn summarize_ranges_and_lines() {
    let pts = vec![
        lidar(1.0, -2.0, 0.5, 10.0, 0, 4, 0.0),
        lidar(-3.0, 5.0, f32::NAN, 30.0, 0, 1, 0.0),
        lidar(2.0, 0.0, -0.5, 20.0, 0, 4, 0.0),
        lidar(0.0, 1.0, 0.0, 5.0, 0, 255, 0.0),
    ];
    let s = summarize(&pts).unwrap();
    assert_eq!(s.count, 4);
    assert_eq!((f32::from_bits(s.x.min), f32::from_bits(s.x.max)), (-3.0, 2.0));
    assert_eq!((f32::from_bits(s.y.min), f32::from_bits(s.y.max)), (-2.0, 5.0));
    assert_eq!((f32::from_bits(s.z.min), f32::from_bits(s.z.max)), (-0.5, 0.5));
    assert_eq!((f32::from_bits(s.intensity.min), f32::from_bits(s.intensity.max)), (5.0, 30.0));
    assert_eq!(
        s.lines,
        vec![
            LineCount { line: 1, count: 1 },
            LineCount { line: 4, count: 2 },
            LineCount { line: 255, count: 1 },
        ]
    );
}

#[test]
fn summarize_single_point() {
    let s = summarize(&vec![lidar(1.0, 2.0, 3.0, 4.0, 0, 0, 0.0)]).unwrap();
    assert_eq!(s.x.min, s.x.max);
    assert_eq!(f32::from_bits(s.z.min), 3.0);
    assert_eq!(s.lines, vec![LineCount { line: 0, count: 1 }]);
}

#[test]
fn end_to_end_single_point() {
    let buf = raw_point(1.0, 2.0, 0.05, 100.0, 1, 3, 123.456);
    let pts = decode_frame(&buf, 26);
    assert_eq!(pts.len(), 1);
    let bev = project(&pts, DEFAULT_Z_MIN, DEFAULT_Z_MAX);
    assert_eq!(bev.len(), 1);
    let b = bev[0];
    assert_eq!(f32::from_bits(b.x), 1.0);
    assert_eq!(f32::from_bits(b.y), 2.0);
    assert_eq!(f32::from_bits(b.z), 0.0);
    assert_eq!(f32::from_bits(b.intensity), 100.0);
    assert_eq!((b.tag, b.line), (1, 3));
    assert_eq!(f64::from_bits(b.timestamp), 123.456);
    let f = process_frame(&buf, 26, "livox", DEFAULT_Z_MIN, DEFAULT_Z_MAX).unwrap();
    assert_eq!(f.data.len(), 26);
    assert_eq!(f.data, raw_point(1.0, 2.0, 0.0, 100.0, 1, 3, 123.456));
    assert_eq!(f.metadata.width, 1);
    assert_eq!(f.metadata.point_step, 26);
    assert_eq!(f.metadata.row_step, 26);
    assert_eq!(f.frame_id, "livox_bev");
}

#[test]
fn end_to_end_excluded_point() {
    let buf = raw_point(1.0, 2.0, 5.0, 100.0, 1, 3, 123.456);
    let pts = decode_frame(&buf, 26);
    assert_eq!(pts.len(), 1);
    assert!(project(&pts, DEFAULT_Z_MIN, DEFAULT_Z_MAX).is_empty());
    let f = process_frame(&buf, 26, "livox", DEFAULT_Z_MIN, DEFAULT_Z_MAX).unwrap();
    assert_eq!(f.data.len(), 0);
    assert_eq!(f.metadata.width, 0);
    assert_eq!(f.metadata.row_step, 0);
}
