//! A bit-pattern model of 32-bit IEEE-754 values.
//!
//! Every float that flows through the library is carried as its bit pattern
//! (`u32`). This module defines what those bits mean for ordering: the sign
//! and magnitude fields, NaN detection, the standard comparison (false on
//! NaN, `-0.0 == +0.0`), and the monotone total-order key that the sorting
//! strategies use (the order known from `total_cmp`, where `-0.0 < +0.0`
//! and NaN sorts above the infinities).
//!
//! For finite IEEE-754 values of one sign, numeric order coincides with the
//! order of the magnitude bits; that fact is what makes the integer
//! definitions below the float order.

use vstd::prelude::*;

verus! {

/// The sign bit of a 32-bit float's bit pattern.
pub const F32_SIGN_BIT: u32 = 0x8000_0000;

/// Magnitude bits strictly above this hold NaN payloads (exponent all ones,
/// fraction nonzero); equal to it is an infinity.
pub const F32_INF_MAG: u32 = 0x7F80_0000;

/// The bit pattern of `1.0f32`.
pub const F32_ONE_BITS: u32 = 0x3F80_0000;

/// The bit pattern of `+0.0f32`.
pub const F32_ZERO_BITS: u32 = 0x0000_0000;

/// The bit pattern of `255.0f32`.
pub const F32_255_BITS: u32 = 0x437F_0000;

/// The sign field of the bit pattern: 0 for non-negative values, 1 for
/// negative ones.
pub open spec fn f32_sign(b: u32) -> u32 {
    b / F32_SIGN_BIT
}

/// The magnitude bits of the pattern: everything below the sign bit.
pub open spec fn f32_mag(b: u32) -> u32 {
    b % F32_SIGN_BIT
}

/// Whether the pattern encodes a NaN.
pub open spec fn f32_is_nan(b: u32) -> bool {
    f32_mag(b) > F32_INF_MAG
}

/// A signed ordering key for non-NaN patterns: both zeros map to 0, other
/// values to their magnitude bits with the value's sign. On non-NaN values
/// the order of this key is exactly the numeric order of the floats.
pub open spec fn f32_skey(b: u32) -> int {
    if f32_mag(b) == 0 {
        0
    } else if f32_sign(b) == 0 {
        f32_mag(b) as int
    } else {
        -(f32_mag(b) as int)
    }
}

/// IEEE-754 `<` on bit patterns: false whenever either side is NaN.
pub open spec fn f32_lt(a: u32, b: u32) -> bool {
    &&& !f32_is_nan(a)
    &&& !f32_is_nan(b)
    &&& f32_skey(a) < f32_skey(b)
}

/// IEEE-754 `<=` on bit patterns: false whenever either side is NaN.
pub open spec fn f32_le(a: u32, b: u32) -> bool {
    &&& !f32_is_nan(a)
    &&& !f32_is_nan(b)
    &&& f32_skey(a) <= f32_skey(b)
}

/// The bit pattern with the sign cleared: the absolute value.
pub open spec fn f32_abs_bits(b: u32) -> u32 {
    f32_mag(b)
}

/// The total-order key: a `u32` whose unsigned order is the total order on
/// floats (negative values reversed below, non-negative values above, NaN at
/// the extremes beyond the infinities).
pub open spec fn f32_total_key(b: u32) -> u32 {
    if f32_sign(b) == 0 {
        (F32_SIGN_BIT + f32_mag(b)) as u32
    } else {
        (0x7FFF_FFFFu32 - f32_mag(b)) as u32
    }
}

/// Clears the sign bit: the absolute value of the encoded float.
pub fn exec_f32_abs_bits(b: u32) -> (r: u32)
    ensures
        r == f32_abs_bits(b),
{
    b % F32_SIGN_BIT
}

/// IEEE-754 `<` on bit patterns.
pub fn exec_f32_lt(a: u32, b: u32) -> (r: bool)
    ensures
        r == f32_lt(a, b),
{
    let mag_a = a % F32_SIGN_BIT;
    let mag_b = b % F32_SIGN_BIT;
    if mag_a > F32_INF_MAG || mag_b > F32_INF_MAG {
        return false;
    }
    let ka: i64 = if mag_a == 0 {
        0
    } else if a / F32_SIGN_BIT == 0 {
        mag_a as i64
    } else {
        -(mag_a as i64)
    };
    let kb: i64 = if mag_b == 0 {
        0
    } else if b / F32_SIGN_BIT == 0 {
        mag_b as i64
    } else {
        -(mag_b as i64)
    };
    ka < kb
}

/// The total-order key of the pattern.
pub fn exec_f32_total_key(b: u32) -> (r: u32)
    ensures
        r == f32_total_key(b),
{
    let mag = b % F32_SIGN_BIT;
    if b / F32_SIGN_BIT == 0 {
        F32_SIGN_BIT + mag
    } else {
        0x7FFF_FFFFu32 - mag
    }
}

/// On non-NaN patterns the total-order key refines the IEEE order: a strict
/// IEEE `<` gives a strictly smaller key, and a smaller key gives IEEE `<=`
/// (the two keys of `-0.0` and `+0.0` differ while the values compare equal).
pub proof fn lemma_total_key_refines_ieee(a: u32, b: u32)
    requires
        !f32_is_nan(a),
        !f32_is_nan(b),
    ensures
        f32_lt(a, b) ==> f32_total_key(a) < f32_total_key(b),
        f32_total_key(a) < f32_total_key(b) ==> f32_le(a, b),
{
}

} // verus!
