//! Decoding of framebuffer bytes into RGB colors. Each framebuffer byte is a
//! packed pixel, `[RRR GGG BB]`: 3 bits of red, 3 of green, 2 of blue, each
//! level mapped to an 8-bit channel value through a fixed lookup table.

use vstd::prelude::*;

verus! {

/// Width in pixels of the logical display.
pub const DISPLAY_WIDTH: u16 = 228;

/// Height in pixels of the logical display.
pub const DISPLAY_HEIGHT: u16 = 142;

/// The 8-bit red channel value for a 3-bit red level.
pub open spec fn red_level(i: u8) -> u8
    recommends
        i < 8,
{
    if i == 0 {
        0
    } else if i == 1 {
        48
    } else if i == 2 {
        80
    } else if i == 3 {
        112
    } else if i == 4 {
        144
    } else if i == 5 {
        176
    } else if i == 6 {
        208
    } else {
        255
    }
}

/// The 8-bit green channel value for a 3-bit green level: the same table as
/// the red channel.
pub open spec fn green_level(i: u8) -> u8
    recommends
        i < 8,
{
    red_level(i)
}

/// The 8-bit blue channel value for a 2-bit blue level.
pub open spec fn blue_level(i: u8) -> u8
    recommends
        i < 4,
{
    if i == 0 {
        0
    } else if i == 1 {
        85
    } else if i == 2 {
        170
    } else {
        255
    }
}

/// Decodes one packed framebuffer byte into its (red, green, blue) 8-bit
/// channel values: the top 3 bits select the red level, the next 3 the green
/// level, and the low 2 the blue level.
pub fn decode_pixel(b: u8) -> (rgb: (u8, u8, u8))
    ensures
        rgb.0 == red_level((b >> 5) & 7),
        rgb.1 == green_level((b >> 2) & 7),
        rgb.2 == blue_level(b & 3),
{
    let ri = (b >> 5) & 7;
    let gi = (b >> 2) & 7;
    let bi = b & 3;
    proof {
        assert((b >> 5) & 7 < 8) by (bit_vector);
        assert((b >> 2) & 7 < 8) by (bit_vector);
        assert(b & 3 < 4) by (bit_vector);
    }
    (channel_3bit(ri), channel_3bit(gi), channel_2bit(bi))
}

/// The red/green lookup table as executable code.
fn channel_3bit(i: u8) -> (v: u8)
    requires
        i < 8,
    ensures
        v == red_level(i),
{
    if i == 0 {
        0
    } else if i == 1 {
        48
    } else if i == 2 {
        80
    } else if i == 3 {
        112
    } else if i == 4 {
        144
    } else if i == 5 {
        176
    } else if i == 6 {
        208
    } else {
        255
    }
}

/// The blue lookup table as executable code.
fn channel_2bit(i: u8) -> (v: u8)
    requires
        i < 4,
    ensures
        v == blue_level(i),
{
    if i == 0 {
        0
    } else if i == 1 {
        85
    } else if i == 2 {
        170
    } else {
        255
    }
}

/// The framebuffer index of the pixel at column `x`, row `y`: pixels are laid
/// out in row-major order.
pub fn pixel_index(x: u16, y: u16) -> (i: u16)
    requires
        x < DISPLAY_WIDTH,
        y < DISPLAY_HEIGHT,
    ensures
        i == y * DISPLAY_WIDTH + x,
        i < crate::cpu::FRAMEBUFFER_LEN,
{
    y * DISPLAY_WIDTH + x
}

} // verus!
