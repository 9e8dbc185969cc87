//! Ordering of binary64 values held as bit patterns.
//!
//! The sign bit and the 63 magnitude bits of a binary64 value read as a
//! signed magnitude: for two values that are not NaN, the order of their
//! magnitude bits is the order of their absolute values. So the key
//! `+m` (sign clear) or `-m` (sign set) orders them as `<` orders the values,
//! with `-0.0` and `+0.0` equal. A NaN's key lies beyond the key of the
//! infinity of its sign.

use vstd::prelude::*;

verus! {

/// The value of the sign bit.
pub const SIGN_BIT: u64 = 0x8000_0000_0000_0000;

/// The signed-magnitude key of the bit pattern `bits`.
pub open spec fn key(bits: u64) -> int {
    if bits < SIGN_BIT {
        bits as int
    } else {
        -((bits - SIGN_BIT) as int)
    }
}

/// The key of `bits` as an integer: `a < b` on values is `order_key(a) < order_key(b)`.
pub fn order_key(bits: u64) -> (k: i64)
    ensures
        k as int == key(bits),
{
    if bits < SIGN_BIT {
        bits as i64
    } else {
        -((bits - SIGN_BIT) as i64)
    }
}

/// Whether the value of `bits` is at least zero (`-0.0` included).
pub fn is_nonnegative(bits: u64) -> (r: bool)
    ensures
        r == (key(bits) >= 0),
{
    order_key(bits) >= 0
}

/// Whether the value of `a` is less than the value of `b`.
pub fn is_less(a: u64, b: u64) -> (r: bool)
    ensures
        r == (key(a) < key(b)),
{
    order_key(a) < order_key(b)
}

} // verus!
