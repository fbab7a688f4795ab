//! The pixel format that the host and the engine agree on.
//!
//! The engine asks the host to pack a colour into a pixel, writes pixels
//! into the frame buffer, and the user interface reads that memory byte by
//! byte as red, green, blue, alpha. So a pixel is packed in such a way that
//! its four bytes lie in memory in that order, whatever the byte order of
//! the machine.

use crate::sameboy::SameBoy;
use vstd::arithmetic::div_mod::lemma_fundamental_div_mod_converse;
use vstd::endian::{endianness, Endian};
use vstd::prelude::*;

verus! {

/// The byte of a pixel with the given significance, 0 for the lowest.
pub open spec fn significant_byte(pixel: u32, significance: int) -> u8 {
    if significance == 0 {
        (pixel % 0x100) as u8
    } else if significance == 1 {
        (pixel / 0x100 % 0x100) as u8
    } else if significance == 2 {
        (pixel / 0x1_0000 % 0x100) as u8
    } else {
        (pixel / 0x100_0000 % 0x100) as u8
    }
}

/// The byte of a pixel that lies at the given offset in memory, 0 to 3.
pub open spec fn memory_byte(pixel: u32, offset: int) -> u8 {
    match endianness() {
        Endian::Little => significant_byte(pixel, offset),
        Endian::Big => significant_byte(pixel, 3 - offset),
    }
}

/// The pixel whose four bytes lie in memory in the given order.
pub open spec fn pixel_from_memory(bytes: Seq<u8>) -> u32
    recommends
        bytes.len() == 4,
{
    match endianness() {
        Endian::Little => (bytes[0] + bytes[1] * 0x100 + bytes[2] * 0x1_0000 + bytes[3]
            * 0x100_0000) as u32,
        Endian::Big => (bytes[3] + bytes[2] * 0x100 + bytes[1] * 0x1_0000 + bytes[0]
            * 0x100_0000) as u32,
    }
}

/// The bytes of a run of pixels as they lie in memory: four for each pixel.
pub open spec fn memory_image(pixels: Seq<u32>) -> Seq<u8> {
    Seq::new(4 * pixels.len(), |i: int| memory_byte(pixels[i / 4], i % 4))
}

/// The pixel of a colour: red, green, blue and full opacity, in this order
/// in memory.
pub open spec fn encoded(r: u8, g: u8, b: u8) -> u32 {
    pixel_from_memory(seq![r, g, b, 0xFFu8])
}

/// `u32::from_ne_bytes`: the integer whose representation in memory, in the
/// byte order of the machine, is the four bytes given.
#[verifier::external_body]
fn u32_from_ne_bytes(bytes: [u8; 4]) -> (pixel: u32)
    ensures
        pixel == pixel_from_memory(bytes@),
{
    u32::from_ne_bytes(bytes)
}

/// `bytemuck::cast_slice` from `u32` to `u8`: the same memory, read byte by
/// byte. It cannot fail for this pair of types: a byte has no alignment to
/// meet and every length is a whole number of bytes.
#[verifier::external_body]
pub(crate) fn pixels_as_bytes(pixels: &[u32]) -> (bytes: &[u8])
    ensures
        bytes@ == memory_image(pixels@),
{
    bytemuck::cast_slice(pixels)
}

impl SameBoy {
    /// Packs a colour into a pixel, for the engine. No branch, no
    /// allocation.
    pub fn rgb_encode_callback(r: u8, g: u8, b: u8) -> (pixel: u32)
        ensures
            pixel == encoded(r, g, b),
    {
        let bytes = [r, g, b, 0xFF];
        assert(bytes@ =~= seq![r, g, b, 0xFFu8]);
        u32_from_ne_bytes(bytes)
    }
}

/// The digits of a number written to the base 256 are its bytes.
proof fn lemma_bytes_of_sum(b0: u8, b1: u8, b2: u8, b3: u8)
    ensures
        0 <= b0 + b1 * 0x100 + b2 * 0x1_0000 + b3 * 0x100_0000 <= u32::MAX,
        significant_byte((b0 + b1 * 0x100 + b2 * 0x1_0000 + b3 * 0x100_0000) as u32, 0) == b0,
        significant_byte((b0 + b1 * 0x100 + b2 * 0x1_0000 + b3 * 0x100_0000) as u32, 1) == b1,
        significant_byte((b0 + b1 * 0x100 + b2 * 0x1_0000 + b3 * 0x100_0000) as u32, 2) == b2,
        significant_byte((b0 + b1 * 0x100 + b2 * 0x1_0000 + b3 * 0x100_0000) as u32, 3) == b3,
{
    let value: int = b0 + b1 * 0x100 + b2 * 0x1_0000 + b3 * 0x100_0000;
    let high1: int = b1 + b2 * 0x100 + b3 * 0x1_0000;
    let high2: int = b2 + b3 * 0x100;
    let high3: int = b3 as int;
    lemma_fundamental_div_mod_converse(value, 0x100, high1, b0 as int);
    lemma_fundamental_div_mod_converse(high1, 0x100, high2, b1 as int);
    lemma_fundamental_div_mod_converse(value, 0x1_0000, high2, b0 + b1 * 0x100);
    lemma_fundamental_div_mod_converse(high2, 0x100, high3, b2 as int);
    lemma_fundamental_div_mod_converse(value, 0x100_0000, high3, b0 + b1 * 0x100 + b2 * 0x1_0000);
    lemma_fundamental_div_mod_converse(high3, 0x100, 0, b3 as int);
}

/// A pixel packed from four bytes has these bytes in memory, in the same
/// order.
pub proof fn lemma_memory_round_trip(bytes: Seq<u8>, offset: int)
    requires
        bytes.len() == 4,
        0 <= offset < 4,
    ensures
        memory_byte(pixel_from_memory(bytes), offset) == bytes[offset],
{
    match endianness() {
        Endian::Little => lemma_bytes_of_sum(bytes[0], bytes[1], bytes[2], bytes[3]),
        Endian::Big => lemma_bytes_of_sum(bytes[3], bytes[2], bytes[1], bytes[0]),
    }
}

/// The user interface sees the colours that were encoded: wherever the
/// frame buffer holds an encoded pixel, the frame has red, green, blue and
/// full opacity, in this order, at the place of that pixel.
pub proof fn lemma_frame_shows_colour(pixels: Seq<u32>, at: int, r: u8, g: u8, b: u8)
    requires
        0 <= at < pixels.len(),
        pixels[at] == encoded(r, g, b),
    ensures
        memory_image(pixels).subrange(4 * at, 4 * at + 4) == seq![r, g, b, 0xFFu8],
{
    let bytes = seq![r, g, b, 0xFFu8];
    let shown = memory_image(pixels).subrange(4 * at, 4 * at + 4);
    assert forall|i: int| 0 <= i < 4 implies shown[i] == bytes[i] by {
        lemma_memory_round_trip(bytes, i);
        assert((4 * at + i) / 4 == at);
        assert((4 * at + i) % 4 == i);
    }
    assert(shown =~= bytes);
}

} // verus!
