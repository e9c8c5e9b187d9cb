//! From a linear colour to the number that a window shows.

use vstd::prelude::*;
use crate::interval::Interval;
use crate::scalar::Scalar;
use crate::vec3::Color;

verus! {

/// The upper end of a channel's range: the encoding of 0.999.
pub const INTENSITY_MAX_BITS: u32 = 0x3f7f_be77;

/// The range that a channel is clamped into before it is scaled to a
/// byte: from 0 to 0.999.
pub fn intensity() -> (r: Interval)
    ensures
        r.min.bits == 0,
        r.max.bits == INTENSITY_MAX_BITS,
        r.min.at_most(r.max),
{
    Interval::new(Scalar::zero(), Scalar::from_bits(INTENSITY_MAX_BITS))
}

/// The colour `0xRRGGBB` of three channels: red in bits 16 to 23, green
/// in bits 8 to 15, blue in bits 0 to 7.
pub fn pack_rgb(r: u8, g: u8, b: u8) -> (packed: u32)
    ensures
        packed == r * 0x1_0000 + g * 0x100 + b,
        packed <= 0xff_ffff,
{
    let r32: u32 = r as u32;
    let g32: u32 = g as u32;
    let b32: u32 = b as u32;
    assert((r32 << 16) | (g32 << 8) | b32 == r32 * 0x1_0000 + g32 * 0x100 + b32) by (bit_vector)
        requires
            r32 < 256,
            g32 < 256,
            b32 < 256,
    ;
    (r32 << 16) | (g32 << 8) | b32
}

/// The packed colour of a colour whose channels are already clamped and
/// scaled to the range of a byte: of each channel the whole part is taken.
pub fn to_u32(scaled: Color) -> (packed: u32)
    ensures
        packed == channel(scaled.x) * 0x1_0000 + channel(scaled.y) * 0x100 + channel(scaled.z),
{
    pack_rgb(scaled.x.to_u8(), scaled.y.to_u8(), scaled.z.to_u8())
}

/// The byte of a scaled channel: its whole part, and 255 beyond that.
pub open spec fn channel(scaled: Scalar) -> nat {
    if scaled.truncated() <= u8::MAX {
        scaled.truncated()
    } else {
        u8::MAX as nat
    }
}

/// The three channels of a packed colour: red, green, blue.
pub fn unpack_rgb(packed: u32) -> (r: (u8, u8, u8))
    ensures
        r.0 == (packed / 0x1_0000) % 0x100,
        r.1 == (packed / 0x100) % 0x100,
        r.2 == packed % 0x100,
{
    (((packed / 0x1_0000) % 0x100) as u8, ((packed / 0x100) % 0x100) as u8, (packed % 0x100) as u8)
}

/// Packing and unpacking a colour gives the channels again.
pub proof fn lemma_unpack_of_pack(r: u8, g: u8, b: u8)
    ensures
        ({
            let packed = r * 0x1_0000 + g * 0x100 + b;
            &&& (packed / 0x1_0000) % 0x100 == r
            &&& (packed / 0x100) % 0x100 == g
            &&& packed % 0x100 == b
        }),
{
}

} // verus!
