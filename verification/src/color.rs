//! Packed 3-3-2 RGB colors.
//!
//! A color is one byte: three bits of red, three of green, two of
//! blue, laid out as `(red << 5) | (green << 2) | blue`.

use vstd::prelude::*;

verus! {

/// Largest value a red or green channel can hold (three bits).
pub const MAX_RED_GREEN: u8 = 7;

/// Largest value a blue channel can hold (two bits).
pub const MAX_BLUE: u8 = 3;

/// What a packed byte holds, as a spec-level formula.
pub open spec fn packed(r: u8, g: u8, b: u8) -> u8 {
    ((r << 5) | (g << 2) | b) as u8
}

/// Pack three quantized channels into one 3-3-2 byte.
pub fn pack_color(r: u8, g: u8, b: u8) -> (c: u8)
    requires
        r <= MAX_RED_GREEN,
        g <= MAX_RED_GREEN,
        b <= MAX_BLUE,
    ensures
        c == packed(r, g, b),
        c >> 5 == r,
        (c >> 2) & 7 == g,
        c & 3 == b,
{
    let c: u8 = (r << 5) | (g << 2) | b;
    proof {
        assert(r <= 7 && g <= 7 && b <= 3 ==> (((r << 5) | (g << 2) | b) as u8) >> 5 == r
            && ((((r << 5) | (g << 2) | b) as u8) >> 2) & 7 == g
            && (((r << 5) | (g << 2) | b) as u8) & 3 == b) by (bit_vector);
    }
    c
}

/// The red channel of a packed byte.
pub fn unpack_red(c: u8) -> (r: u8)
    ensures
        r == c >> 5,
        r <= MAX_RED_GREEN,
{
    proof {
        assert(c >> 5 <= 7) by (bit_vector);
    }
    c >> 5
}

/// The green channel of a packed byte.
pub fn unpack_green(c: u8) -> (g: u8)
    ensures
        g == (c >> 2) & 7,
        g <= MAX_RED_GREEN,
{
    proof {
        assert((c >> 2) & 7 <= 7) by (bit_vector);
    }
    (c >> 2) & 7
}

/// The blue channel of a packed byte.
pub fn unpack_blue(c: u8) -> (b: u8)
    ensures
        b == c & 3,
        b <= MAX_BLUE,
{
    proof {
        assert(c & 3 <= 3) by (bit_vector);
    }
    c & 3
}

/// Packing three in-range channels and unpacking the byte again
/// recovers each channel: the quantization boundary loses nothing.
pub proof fn lemma_color_round_trip(r: u8, g: u8, b: u8)
    requires
        r <= MAX_RED_GREEN,
        g <= MAX_RED_GREEN,
        b <= MAX_BLUE,
    ensures
        packed(r, g, b) >> 5 == r,
        (packed(r, g, b) >> 2) & 7 == g,
        packed(r, g, b) & 3 == b,
{
    assert(r <= 7 && g <= 7 && b <= 3 ==> (((r << 5) | (g << 2) | b) as u8) >> 5 == r
        && ((((r << 5) | (g << 2) | b) as u8) >> 2) & 7 == g
        && (((r << 5) | (g << 2) | b) as u8) & 3 == b) by (bit_vector);
}

/// The packed byte's numeric value: the red level in the top three
/// bits, green in the next three, blue in the last two.
pub proof fn lemma_packed_value(r: u8, g: u8, b: u8)
    requires
        r <= MAX_RED_GREEN,
        g <= MAX_RED_GREEN,
        b <= MAX_BLUE,
    ensures
        packed(r, g, b) as int == 32 * (r as int) + 4 * (g as int) + b as int,
{
    assert(r <= 7 && g <= 7 && b <= 3 ==> (((r << 5) | (g << 2) | b) as u8) == r * 32 + g * 4 + b)
        by (bit_vector);
}

} // verus!
