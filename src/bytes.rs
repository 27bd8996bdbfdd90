//! Little-endian byte splitting and integer clamping.

use vstd::prelude::*;

verus! {

/// The low byte of a 16-bit value.
pub fn lower_byte(value: u16) -> (r: u8)
    ensures
        r == value % 256,
{
    let r = (value & 0xFF) as u8;
    assert((value & 0xFF) == value % 256) by (bit_vector);
    r
}

/// The high byte of a 16-bit value.
pub fn higher_byte(value: u16) -> (r: u8)
    ensures
        r == value / 256,
{
    let r = ((value >> 8) & 0xFF) as u8;
    assert(((value >> 8) & 0xFF) == value / 256) by (bit_vector);
    r
}

/// The 16-bit value whose low byte is `low` and high byte is `high`.
pub fn word(low: u8, high: u8) -> (r: u16)
    ensures
        r == low + 256 * high,
{
    let r = (low as u16) | ((high as u16) << 8);
    assert((low as u16) | ((high as u16) << 8) == low + 256 * high) by (bit_vector);
    r
}

/// `max(min, min(max, value))`: `value` brought into `[min, max]`, with `min`
/// winning when the bounds are crossed.
pub open spec fn clamp_spec(value: int, min: int, max: int) -> int {
    let upper = if value < max { value } else { max };
    if upper > min { upper } else { min }
}

/// `value` brought into `[min, max]`.
pub fn clamp(value: i32, min: i32, max: i32) -> (r: i32)
    ensures
        r == clamp_spec(value as int, min as int, max as int),
{
    let upper = if value < max { value } else { max };
    if upper > min { upper } else { min }
}

} // verus!
