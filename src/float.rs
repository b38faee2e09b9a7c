//! IEEE-754 single-precision comparison on bit patterns.
use vstd::prelude::*;

verus! {

/// Sign bit of a single-precision pattern.
pub const F32_SIGN: u32 = 0x8000_0000;

/// One more than the largest mantissa.
pub const F32_MANTISSA: u32 = 0x80_0000;

/// Whether `b` encodes a NaN: all exponent bits set and a nonzero mantissa.
pub open spec fn f32_is_nan(b: u32) -> bool {
    (b / F32_MANTISSA) % 0x100 == 0xff && b % F32_MANTISSA != 0
}

/// Position of a non-NaN pattern on the number line, as a signed magnitude;
/// both zeros map to 0.
pub open spec fn f32_key(b: u32) -> int {
    if b >= F32_SIGN {
        -((b % F32_SIGN) as int)
    } else {
        b as int
    }
}

/// `a <= b` on the floats the patterns encode; false when either is NaN.
pub open spec fn f32_le_spec(a: u32, b: u32) -> bool {
    !f32_is_nan(a) && !f32_is_nan(b) && f32_key(a) <= f32_key(b)
}

/// `a < b` on the floats the patterns encode; false when either is NaN.
pub open spec fn f32_lt_spec(a: u32, b: u32) -> bool {
    !f32_is_nan(a) && !f32_is_nan(b) && f32_key(a) < f32_key(b)
}

/// Whether `b` encodes a NaN.
pub fn f32_is_nan_bits(b: u32) -> (r: bool)
    ensures
        r == f32_is_nan(b),
{
    (b / F32_MANTISSA) % 0x100 == 0xff && b % F32_MANTISSA != 0
}

fn f32_key_le(a: u32, b: u32) -> (r: bool)
    ensures
        r == (f32_key(a) <= f32_key(b)),
{
    let a_neg = a >= F32_SIGN;
    let b_neg = b >= F32_SIGN;
    let ma = a % F32_SIGN;
    let mb = b % F32_SIGN;
    if a_neg && b_neg {
        mb <= ma
    } else if a_neg {
        true
    } else if b_neg {
        a == 0 && mb == 0
    } else {
        a <= b
    }
}

/// `a <= b` on the floats the patterns encode, as `f32`'s `<=` answers it.
pub fn f32_le(a: u32, b: u32) -> (r: bool)
    ensures
        r == f32_le_spec(a, b),
{
    !f32_is_nan_bits(a) && !f32_is_nan_bits(b) && f32_key_le(a, b)
}

/// `a < b` on the floats the patterns encode, as `f32`'s `<` answers it.
pub fn f32_lt(a: u32, b: u32) -> (r: bool)
    ensures
        r == f32_lt_spec(a, b),
{
    !f32_is_nan_bits(a) && !f32_is_nan_bits(b) && !f32_key_le(b, a)
}

} // verus!
