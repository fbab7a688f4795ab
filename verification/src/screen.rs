//! Frames on their way to the user interface.
//!
//! A [`PixelBuffer`] is a copy of the frame buffer, taken at one moment. The
//! worker makes it and hands it over; the user interface turns it into an
//! image on its own thread. The two threads never share the frame buffer
//! itself.

use vstd::prelude::*;

verus! {

/// A copy of a frame, in the pixel buffer of the user interface toolkit:
/// `slint::SharedPixelBuffer` with four bytes to the pixel, red, green,
/// blue, alpha.
#[verifier::external_body]
pub struct PixelBuffer {
    buffer: slint::SharedPixelBuffer<slint::Rgba8Pixel>,
}

/// An image of the user interface toolkit.
#[verifier::external_type_specification]
#[verifier::external_body]
pub struct ExImage(slint::Image);

/// The bytes that a pixel buffer holds, row by row, four to the pixel.
pub uninterp spec fn pixel_buffer_bytes(buffer: PixelBuffer) -> Seq<u8>;

/// The width and the height of a pixel buffer, in pixels.
pub uninterp spec fn pixel_buffer_size(buffer: PixelBuffer) -> (u32, u32);

/// The bytes of the pixels that an image shows, row by row, four to the
/// pixel.
pub uninterp spec fn image_bytes(image: slint::Image) -> Seq<u8>;

/// `slint::SharedPixelBuffer::clone_from_slice`: a pixel buffer of the
/// given size that holds a copy of the bytes. The toolkit panics unless the
/// bytes make up exactly `width * height` pixels.
#[verifier::external_body]
pub(crate) fn clone_pixels(bytes: &[u8], width: u32, height: u32) -> (buffer: PixelBuffer)
    requires
        bytes@.len() == 4 * (width * height),
    ensures
        pixel_buffer_bytes(buffer) == bytes@,
        pixel_buffer_size(buffer) == (width, height),
{
    PixelBuffer { buffer: slint::SharedPixelBuffer::clone_from_slice(bytes, width, height) }
}

/// `slint::Image::from_rgba8`: an image that shows the pixels of the
/// buffer.
#[verifier::external_body]
fn image_from_rgba8(buffer: PixelBuffer) -> (image: slint::Image)
    ensures
        image_bytes(image) == pixel_buffer_bytes(buffer),
{
    slint::Image::from_rgba8(buffer.buffer)
}

impl PixelBuffer {
    /// The image that shows this frame. To be called on the thread of the
    /// user interface, where images live.
    pub fn into_image(self) -> (image: slint::Image)
        ensures
            image_bytes(image) == pixel_buffer_bytes(self),
    {
        image_from_rgba8(self)
    }
}

} // verus!
