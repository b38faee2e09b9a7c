//! Walking a flat buffer at a declared stride.
use crate::record::{fits_at, point_at, LidarPoint, POINT_SIZE};
use vstd::arithmetic::div_mod::{lemma_fundamental_div_mod, lemma_fundamental_div_mod_converse};
use vstd::arithmetic::mul::lemma_mul_inequality;
use vstd::prelude::*;

verus! {

/// Number of offsets `k * stride` at which a whole point fits in `len` bytes.
pub open spec fn frame_len(len: int, stride: int) -> int {
    if len < POINT_SIZE {
        0
    } else {
        (len - POINT_SIZE) / stride + 1
    }
}

/// The points decoded at offsets `0, stride, 2 * stride, ...` while they fit.
pub open spec fn decoded_frame(buf: Seq<u8>, stride: int) -> Seq<LidarPoint> {
    Seq::new(frame_len(buf.len() as int, stride) as nat, |k: int| point_at(buf, k * stride))
}

proof fn lemma_frame_len_bounds(len: int, stride: int, k: int)
    requires
        stride >= 1,
        len >= 0,
        0 <= k,
    ensures
        frame_len(len, stride) >= 0,
        k < frame_len(len, stride) ==> k * stride + POINT_SIZE <= len,
        k == frame_len(len, stride) ==> k * stride + POINT_SIZE > len,
{
    if len >= POINT_SIZE {
        let m = len - POINT_SIZE;
        lemma_fundamental_div_mod(m, stride);
        if k < frame_len(len, stride) {
            lemma_mul_inequality(k, m / stride, stride);
            assert(k * stride <= (m / stride) * stride);
            assert(stride * (m / stride) == (m / stride) * stride) by (nonlinear_arith);
        }
        if k == frame_len(len, stride) {
            assert(k * stride == (m / stride) * stride + stride) by (nonlinear_arith)
                requires
                    k == m / stride + 1,
            ;
            assert(stride * (m / stride) == (m / stride) * stride) by (nonlinear_arith);
        }
    }
}

/// Decodes every whole point of `data`, stepping `point_stride` bytes from
/// offset 0, in buffer order; the scan stops at the first offset where fewer
/// than 26 bytes remain.
pub fn decode_frame(data: &[u8], point_stride: usize) -> (r: Vec<LidarPoint>)
    requires
        point_stride >= 1,
    ensures
        r@ == decoded_frame(data@, point_stride as int),
        r@.len() > 0 ==> fits_at(data@, (r@.len() - 1) * point_stride),
        !fits_at(data@, r@.len() * point_stride),
{
    let len = data.len();
    let n: usize = if len < POINT_SIZE {
        0
    } else {
        (len - POINT_SIZE) / point_stride + 1
    };
    let ghost stride = point_stride as int;
    let mut points: Vec<LidarPoint> = Vec::new();
    let mut k: usize = 0;
    while k < n
        invariant
            n == frame_len(data@.len() as int, stride),
            k <= n,
            points@ =~= decoded_frame(data@, stride).subrange(0, k as int),
            stride == point_stride,
            stride >= 1,
            len == data@.len(),
        decreases n - k,
    {
        proof {
            lemma_frame_len_bounds(data@.len() as int, stride, k as int);
            assert(k * point_stride + POINT_SIZE <= len);
        }
        let off = k * point_stride;
        match LidarPoint::from_bytes(data, off) {
            Some(p) => points.push(p),
            None => {},
        }
        k = k + 1;
    }
    proof {
        lemma_frame_len_bounds(data@.len() as int, stride, n as int);
        if n > 0 {
            lemma_frame_len_bounds(data@.len() as int, stride, n - 1);
        }
    }
    points
}

/// When the stride is at least a point wide and the trailing remainder is
/// shorter than a point, the frame holds exactly `len / stride` points: the
/// remainder is ignored.
pub proof fn lemma_truncation(buf: Seq<u8>, stride: int)
    requires
        stride >= POINT_SIZE,
        (buf.len() as int) % stride < POINT_SIZE,
    ensures
        decoded_frame(buf, stride).len() == (buf.len() as int) / stride,
{
    let len = buf.len() as int;
    let q = len / stride;
    let r = len % stride;
    lemma_fundamental_div_mod(len, stride);
    if len >= POINT_SIZE {
        assert(q >= 1) by (nonlinear_arith)
            requires
                len == stride * q + r,
                r < POINT_SIZE,
                len >= POINT_SIZE,
                stride >= 1,
        ;
        assert(len - POINT_SIZE == (q - 1) * stride + (stride + r - POINT_SIZE)) by (nonlinear_arith)
            requires
                len == stride * q + r,
        ;
        lemma_fundamental_div_mod_converse(len - POINT_SIZE, stride, q - 1, stride + r - POINT_SIZE);
    } else {
        lemma_fundamental_div_mod_converse(len, stride, 0, len);
    }
}

} // verus!
