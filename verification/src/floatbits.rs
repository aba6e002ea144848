//! Ordering of 32-bit float values kept as raw bit patterns.
//!
//! The library stores every scalar of the point cloud as the IEEE 754 bit
//! pattern of an `f32`, exactly as the codec reads and writes it. This module
//! gives those patterns the numeric order of the values they stand for:
//! `f32_key` maps a pattern to an integer that is monotone in the float value
//! (sign-magnitude unfolded onto the number line). Two patterns compare equal
//! exactly when the values do, with one deliberate choice: the two zero
//! patterns share one key, and each NaN pattern sorts beyond the infinities of
//! its sign.
use vstd::prelude::*;

verus! {

/// The bit pattern of positive infinity.
pub const F32_INFINITY_BITS: u32 = 0x7F80_0000;

/// The bit pattern of negative infinity.
pub const F32_NEG_INFINITY_BITS: u32 = 0xFF80_0000;

/// An integer key that orders bit patterns as the float values they encode.
pub open spec fn f32_key(bits: u32) -> int {
    if bits < 0x8000_0000 {
        bits as int
    } else {
        0x8000_0000 - bits as int
    }
}

/// True when the value of `a` is at most the value of `b`.
pub fn f32_le(a: u32, b: u32) -> (r: bool)
    ensures
        r <==> f32_key(a) <= f32_key(b),
{
    let neg_a = a >= 0x8000_0000;
    let neg_b = b >= 0x8000_0000;
    if neg_a && neg_b {
        b <= a
    } else if !neg_a && !neg_b {
        a <= b
    } else if neg_a {
        true
    } else {
        a == 0 && b == 0x8000_0000
    }
}

/// The smaller of two values, as one of the two given patterns.
pub fn f32_min(a: u32, b: u32) -> (r: u32)
    ensures
        r == a || r == b,
        f32_key(r) <= f32_key(a),
        f32_key(r) <= f32_key(b),
{
    if f32_le(a, b) {
        a
    } else {
        b
    }
}

/// The larger of two values, as one of the two given patterns.
pub fn f32_max(a: u32, b: u32) -> (r: u32)
    ensures
        r == a || r == b,
        f32_key(r) >= f32_key(a),
        f32_key(r) >= f32_key(b),
{
    if f32_le(a, b) {
        b
    } else {
        a
    }
}

} // verus!
