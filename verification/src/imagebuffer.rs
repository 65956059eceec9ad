use vstd::prelude::*;
use crate::canonical::Image;

verus! {

/// The image-crate buffer the capture interface hands to downstream
/// consumers such as encoders: 8-bit RGBA pixels over a plain byte vector.
/// The buffer itself is opaque here; what it holds is reached only through
/// the trusted calls below.
#[verifier::external_body]
pub struct RgbaBuffer {
    buffer: image::ImageBuffer<image::Rgba<u8>, Vec<u8>>,
}

/// The pixel bytes an image-crate buffer holds.
pub uninterp spec fn buffer_bytes(b: RgbaBuffer) -> Seq<u8>;

/// The width an image-crate buffer was built with.
pub uninterp spec fn buffer_width(b: RgbaBuffer) -> u32;

/// The height an image-crate buffer was built with.
pub uninterp spec fn buffer_height(b: RgbaBuffer) -> u32;

/// Relies on image's ImageBuffer::from_raw: it succeeds exactly when the
/// container holds at least `width * height * 4` bytes, four per RGBA
/// pixel, and stores the container and the dimensions unchanged.
#[verifier::external_body]
fn buffer_from_raw(width: u32, height: u32, data: Vec<u8>) -> (r: Option<RgbaBuffer>)
    ensures
        r is Some <==> data@.len() >= width * height * 4,
        r matches Some(b) ==> buffer_bytes(b) == data@ && buffer_width(b) == width
            && buffer_height(b) == height,
{
    image::ImageBuffer::from_raw(width, height, data).map(|buffer| RgbaBuffer { buffer })
}

impl RgbaBuffer {
    /// Relies on image's ImageBuffer::dimensions: it returns the width and
    /// height the buffer was built with.
    #[verifier::external_body]
    pub fn dimensions(&self) -> (r: (u32, u32))
        ensures
            r.0 == buffer_width(*self),
            r.1 == buffer_height(*self),
    {
        self.buffer.dimensions()
    }

    /// Relies on image's ImageBuffer::into_raw: it hands back the pixel
    /// container unchanged.
    #[verifier::external_body]
    pub fn into_bytes(self) -> (r: Vec<u8>)
        ensures
            r@ == buffer_bytes(self),
    {
        self.buffer.into_raw()
    }
}

/// Converts a canonical image into the image-crate buffer, preserving
/// every byte and both dimensions.
pub fn to_image_buffer(img: Image) -> (r: RgbaBuffer)
    requires
        img.wf(),
    ensures
        buffer_bytes(r) == img.data@,
        buffer_width(r) == img.width,
        buffer_height(r) == img.height,
{
    let width = img.width;
    let height = img.height;
    let r = buffer_from_raw(width, height, img.data);
    r.unwrap()
}

} // verus!
