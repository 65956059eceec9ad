use vstd::prelude::*;
use crate::error::Error;

verus! {

/// The canonical image: 8-bit RGBA, row-major, top row first, no row
/// padding. Every capture backend normalizes its native buffer into this
/// one representation before returning it.
#[derive(Clone, Debug)]
pub struct Image {
    pub width: u32,
    pub height: u32,
    pub data: Vec<u8>,
}

impl Image {
    /// The buffer holds exactly `width * height * 4` bytes, four per pixel.
    pub open spec fn wf(self) -> bool {
        self.data@.len() == self.width * self.height * 4
    }

    /// Builds a canonical image from a pre-packed RGBA buffer. Fails when
    /// the buffer does not hold exactly `width * height * 4` bytes.
    pub fn from_raw(width: u32, height: u32, data: Vec<u8>) -> (r: Result<Image, Error>)
        ensures
            match r {
                Ok(img) => {
                    &&& data@.len() == width * height * 4
                    &&& img == (Image { width, height, data })
                    &&& img.wf()
                },
                Err(e) => {
                    &&& data@.len() != width * height * 4
                    &&& e == Error::WindowCaptureFailed
                },
            },
    {
        proof {
            assert(width * height * 4 < u128::MAX) by (nonlinear_arith)
                requires
                    width <= u32::MAX,
                    height <= u32::MAX,
            ;
        }
        let expected: u128 = width as u128 * height as u128 * 4;
        if data.len() as u128 == expected {
            Ok(Image { width, height, data })
        } else {
            Err(Error::WindowCaptureFailed)
        }
    }

    pub fn width(&self) -> (w: u32)
        ensures
            w == self.width,
    {
        self.width
    }

    pub fn height(&self) -> (h: u32)
        ensures
            h == self.height,
    {
        self.height
    }

    pub fn as_bytes(&self) -> (b: &Vec<u8>)
        ensures
            b@ == self.data@,
    {
        &self.data
    }
}

} // verus!
