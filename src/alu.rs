//! Arithmetic on register values: each function returns the result and the
//! value that the flag register receives.
use vstd::prelude::*;

verus! {

/// Wrapping addition; the flag is 1 exactly when the sum does not fit a byte.
pub fn add_with_carry(a: u8, b: u8) -> (r: (u8, u8))
    ensures
        r.0 == (a + b) % 256,
        r.1 == (if a + b >= 256 { 1u8 } else { 0u8 }),
{
    let sum: u16 = a as u16 + b as u16;
    if sum >= 256 {
        ((sum - 256) as u8, 1)
    } else {
        (sum as u8, 0)
    }
}

/// Wrapping subtraction `a - b`; the flag is 1 exactly when no borrow
/// occurs, that is when `a >= b`.
pub fn sub_with_borrow(a: u8, b: u8) -> (r: (u8, u8))
    ensures
        r.0 == (a - b + 256) % 256,
        r.1 == (if a >= b { 1u8 } else { 0u8 }),
{
    if a >= b {
        (a - b, 1)
    } else {
        ((a as u16 + 256 - b as u16) as u8, 0)
    }
}

/// Shift right by one; the flag is the bit shifted out.
pub fn shift_right(a: u8) -> (r: (u8, u8))
    ensures
        r.0 == a >> 1u8,
        r.1 == a & 1u8,
        r.0 == a / 2,
        r.1 == a % 2,
{
    let res = a >> 1u8;
    let flag = a & 1u8;
    assert(res == a / 2 && flag == a % 2) by (bit_vector)
        requires
            res == a >> 1u8,
            flag == a & 1u8,
    ;
    (res, flag)
}

/// Shift left by one, truncated to a byte; the flag is the bit shifted out.
pub fn shift_left(a: u8) -> (r: (u8, u8))
    ensures
        r.0 == (a * 2) % 256,
        r.1 == a / 128,
{
    let res = a << 1u8;
    let flag = (a & 0x80u8) >> 7u8;
    assert(res == (a * 2) % 256 && flag == a / 128) by (bit_vector)
        requires
            res == a << 1u8,
            flag == (a & 0x80u8) >> 7u8,
    ;
    (res, flag)
}

/// The hundreds, tens and units digits of `a`.
pub fn decimal_digits(a: u8) -> (r: (u8, u8, u8))
    ensures
        r.0 == a / 100,
        r.1 == (a % 100) / 10,
        r.2 == a % 10,
        r.0 * 100 + r.1 * 10 + r.2 == a,
{
    (a / 100, (a % 100) / 10, a % 10)
}

} // verus!
