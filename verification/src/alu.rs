//! Eight-bit arithmetic with the flag conventions of the machine.

use vstd::prelude::*;

verus! {

/// The sum of two bytes modulo 256.
pub fn wrapping_sum(a: u8, b: u8) -> (sum: u8)
    ensures
        sum == (a + b) % 256,
{
    a.wrapping_add(b)
}

/// The sum of two bytes modulo 256, and the carry: 1 if the sum does not fit
/// in a byte, else 0.
pub fn add_with_carry(a: u8, b: u8) -> (result: (u8, u8))
    ensures
        result.0 == (a + b) % 256,
        result.1 == if a + b > 255 { 1u8 } else { 0u8 },
{
    let sum: u8 = a.wrapping_add(b);
    let carry: u8 = if sum < a {
        1
    } else {
        0
    };
    (sum, carry)
}

/// The difference of two bytes modulo 256, and the inverted borrow: 0 if
/// `b` is larger than `a`, else 1.
pub fn sub_with_borrow(a: u8, b: u8) -> (result: (u8, u8))
    ensures
        result.0 == (a - b) % 256,
        result.1 == if a < b { 0u8 } else { 1u8 },
{
    let difference: u8 = a.wrapping_sub(b);
    let no_borrow: u8 = if a < b {
        0
    } else {
        1
    };
    (difference, no_borrow)
}

/// A byte shifted right by one, and the bit that was shifted out: the
/// least significant one.
pub fn shift_right(a: u8) -> (result: (u8, u8))
    ensures
        result.0 == a / 2,
        result.1 == a % 2,
{
    let dropped: u8 = a & 0x1;
    let shifted: u8 = a >> 1;
    assert(a & 0x1 == a % 2) by (bit_vector);
    assert(a >> 1 == a / 2) by (bit_vector);
    (shifted, dropped)
}

/// A byte shifted left by one, keeping the low eight bits, and the bit that
/// was shifted out: the most significant one.
pub fn shift_left(a: u8) -> (result: (u8, u8))
    ensures
        result.0 == (a * 2) % 256,
        result.1 == a / 128,
{
    let dropped: u8 = (a >> 7) & 0x1;
    let shifted: u8 = a << 1;
    assert((a >> 7) & 0x1 == a / 128) by (bit_vector);
    assert(a << 1 == (a * 2) % 256) by (bit_vector);
    (shifted, dropped)
}

/// The sixteen-bit word made of two bytes, most significant first.
pub fn make_word(high: u8, low: u8) -> (w: u16)
    ensures
        w == high * 256 + low,
{
    let wide_high: u16 = high as u16;
    let wide_low: u16 = low as u16;
    assert((wide_high << 8) | wide_low == wide_high * 256 + wide_low) by (bit_vector)
        requires
            wide_high < 256,
            wide_low < 256,
    ;
    (wide_high << 8) | wide_low
}

} // verus!
