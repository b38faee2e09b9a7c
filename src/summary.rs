//! Per-frame statistics for observability.
use crate::float::{f32_is_nan, f32_is_nan_bits, f32_lt, f32_lt_spec};
use crate::record::LidarPoint;
use vstd::prelude::*;

verus! {

/// Which single-precision field of a point to read.
#[derive(Clone, Copy, Debug, PartialEq, Eq, Structural)]
pub enum Axis {
    X,
    Y,
    Z,
    Intensity,
}

/// Smallest and largest value of one field, as `f32` bit patterns.
#[derive(Clone, Copy, Debug, PartialEq, Eq, Structural)]
pub struct AxisRange {
    pub min: u32,
    pub max: u32,
}

/// How many points came from one scan line.
#[derive(Clone, Copy, Debug, PartialEq, Eq, Structural)]
pub struct LineCount {
    pub line: u8,
    pub count: usize,
}

/// Statistics of a non-empty frame.
#[derive(Clone, Debug)]
pub struct Summary {
    pub count: usize,
    pub x: AxisRange,
    pub y: AxisRange,
    pub z: AxisRange,
    pub intensity: AxisRange,
    /// Lines with at least one point, by ascending line id.
    pub lines: Vec<LineCount>,
}

/// Number of scan lines a `u8` can name.
pub const LINE_IDS: usize = 256;

pub open spec fn axis_value(p: LidarPoint, axis: Axis) -> u32 {
    match axis {
        Axis::X => p.x,
        Axis::Y => p.y,
        Axis::Z => p.z,
        Axis::Intensity => p.intensity,
    }
}

pub open spec fn axis_values_of(s: Seq<LidarPoint>, axis: Axis) -> Seq<u32> {
    s.map_values(|p: LidarPoint| axis_value(p, axis))
}

/// `f32::min` on bit patterns: a NaN gives way to the other operand, and of
/// two equal values the first is kept.
pub open spec fn f32_min_spec(a: u32, b: u32) -> u32 {
    if f32_is_nan(a) || f32_lt_spec(b, a) {
        b
    } else {
        a
    }
}

/// `f32::max` on bit patterns: a NaN gives way to the other operand, and of
/// two equal values the first is kept.
pub open spec fn f32_max_spec(a: u32, b: u32) -> u32 {
    if f32_is_nan(a) || f32_lt_spec(a, b) {
        b
    } else {
        a
    }
}

/// Folds `f32_min_spec` over a non-empty sequence, from the left.
pub open spec fn seq_min(s: Seq<u32>) -> u32
    decreases s.len(),
{
    if s.len() <= 1 {
        s[0]
    } else {
        f32_min_spec(seq_min(s.drop_last()), s.last())
    }
}

/// Folds `f32_max_spec` over a non-empty sequence, from the left.
pub open spec fn seq_max(s: Seq<u32>) -> u32
    decreases s.len(),
{
    if s.len() <= 1 {
        s[0]
    } else {
        f32_max_spec(seq_max(s.drop_last()), s.last())
    }
}

pub open spec fn range_of(s: Seq<u32>) -> AxisRange {
    AxisRange { min: seq_min(s), max: seq_max(s) }
}

/// Number of points of `s` on scan line `line`.
pub open spec fn line_count(s: Seq<LidarPoint>, line: u8) -> nat
    decreases s.len(),
{
    if s.len() == 0 {
        0
    } else {
        line_count(s.drop_last(), line) + if s.last().line == line {
            1nat
        } else {
            0nat
        }
    }
}

/// The lines below `bound` that hold a point of `s`, each with its count,
/// by ascending line id.
pub open spec fn line_table(s: Seq<LidarPoint>, bound: nat) -> Seq<LineCount>
    decreases bound,
{
    if bound == 0 {
        Seq::empty()
    } else {
        let l = (bound - 1) as u8;
        let rest = line_table(s, (bound - 1) as nat);
        if line_count(s, l) > 0 {
            rest.push(LineCount { line: l, count: line_count(s, l) as usize })
        } else {
            rest
        }
    }
}

fn f32_min(a: u32, b: u32) -> (r: u32)
    ensures
        r == f32_min_spec(a, b),
{
    if f32_is_nan_bits(a) || f32_lt(b, a) {
        b
    } else {
        a
    }
}

fn f32_max(a: u32, b: u32) -> (r: u32)
    ensures
        r == f32_max_spec(a, b),
{
    if f32_is_nan_bits(a) || f32_lt(a, b) {
        b
    } else {
        a
    }
}

/// Reads one field of every point, in order.
pub fn axis_values(points: &Vec<LidarPoint>, axis: Axis) -> (r: Vec<u32>)
    ensures
        r@ == axis_values_of(points@, axis),
{
    let mut out: Vec<u32> = Vec::new();
    let mut i: usize = 0;
    while i < points.len()
        invariant
            i <= points@.len(),
            out@ =~= axis_values_of(points@.subrange(0, i as int), axis),
        decreases points@.len() - i,
    {
        let p = points[i];
        let v = match axis {
            Axis::X => p.x,
            Axis::Y => p.y,
            Axis::Z => p.z,
            Axis::Intensity => p.intensity,
        };
        out.push(v);
        i = i + 1;
    }
    proof {
        assert(points@.subrange(0, points@.len() as int) =~= points@);
    }
    out
}

/// Smallest and largest of a non-empty sequence of `f32` patterns, in the
/// way a fold with `f32::min` and `f32::max` would find them.
pub fn range_of_values(values: &Vec<u32>) -> (r: AxisRange)
    requires
        values@.len() >= 1,
    ensures
        r == range_of(values@),
{
    let mut lo = values[0];
    let mut hi = values[0];
    let mut i: usize = 1;
    while i < values.len()
        invariant
            1 <= i <= values@.len(),
            lo == seq_min(values@.subrange(0, i as int)),
            hi == seq_max(values@.subrange(0, i as int)),
        decreases values@.len() - i,
    {
        proof {
            assert(values@.subrange(0, i + 1).drop_last() =~= values@.subrange(0, i as int));
        }
        lo = f32_min(lo, values[i]);
        hi = f32_max(hi, values[i]);
        i = i + 1;
    }
    proof {
        assert(values@.subrange(0, values@.len() as int) =~= values@);
    }
    AxisRange { min: lo, max: hi }
}

/// Points per scan line, for the lines that have any, by ascending line id.
pub fn line_counts(points: &Vec<LidarPoint>) -> (r: Vec<LineCount>)
    ensures
        r@ == line_table(points@, LINE_IDS as nat),
{
    let mut counts: Vec<usize> = Vec::new();
    let mut l: usize = 0;
    while l < LINE_IDS
        invariant
            l <= LINE_IDS,
            counts@.len() == l,
            forall|k: int| 0 <= k < l ==> counts@[k] == 0,
        decreases LINE_IDS - l,
    {
        counts.push(0);
        l = l + 1;
    }
    let mut i: usize = 0;
    while i < points.len()
        invariant
            i <= points@.len(),
            counts@.len() == LINE_IDS,
            forall|k: int|
                0 <= k < LINE_IDS ==> #[trigger] counts@[k] == line_count(
                    points@.subrange(0, i as int),
                    k as u8,
                ),
            forall|k: int| 0 <= k < LINE_IDS ==> #[trigger] counts@[k] <= i,
        decreases points@.len() - i,
    {
        proof {
            assert(points@.subrange(0, i + 1).drop_last() =~= points@.subrange(0, i as int));
        }
        let line = points[i].line as usize;
        let c = counts[line];
        counts.set(line, c + 1);
        i = i + 1;
    }
    proof {
        assert(points@.subrange(0, points@.len() as int) =~= points@);
    }
    let mut out: Vec<LineCount> = Vec::new();
    let mut l: usize = 0;
    while l < LINE_IDS
        invariant
            l <= LINE_IDS,
            counts@.len() == LINE_IDS,
            forall|k: int|
                0 <= k < LINE_IDS ==> #[trigger] counts@[k] == line_count(points@, k as u8),
            out@ == line_table(points@, l as nat),
        decreases LINE_IDS - l,
    {
        if counts[l] > 0 {
            out.push(LineCount { line: l as u8, count: counts[l] });
        }
        l = l + 1;
    }
    out
}

/// Statistics of a frame: `None` for an empty frame, which has none.
pub fn summarize(points: &Vec<LidarPoint>) -> (r: Option<Summary>)
    ensures
        r is None <==> points@.len() == 0,
        r matches Some(sm) ==> {
            &&& sm.count == points@.len()
            &&& sm.x == range_of(axis_values_of(points@, Axis::X))
            &&& sm.y == range_of(axis_values_of(points@, Axis::Y))
            &&& sm.z == range_of(axis_values_of(points@, Axis::Z))
            &&& sm.intensity == range_of(axis_values_of(points@, Axis::Intensity))
            &&& sm.lines@ == line_table(points@, LINE_IDS as nat)
        },
{
    if points.len() == 0 {
        return None;
    }
    let x = range_of_values(&axis_values(points, Axis::X));
    let y = range_of_values(&axis_values(points, Axis::Y));
    let z = range_of_values(&axis_values(points, Axis::Z));
    let intensity = range_of_values(&axis_values(points, Axis::Intensity));
    let lines = line_counts(points);
    Some(Summary { count: points.len(), x, y, z, intensity, lines })
}

} // verus!
