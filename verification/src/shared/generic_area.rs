use vstd::prelude::*;
use crate::error::Error;
use crate::shared::area::Area;

verus! {

/// The caller's [`Area`] restated in the integer widths of one native API.
/// A backend that takes 32-bit signed coordinates, for instance, works on a
/// `GenericArea<i32, i32>`.
#[derive(Clone, Copy, Debug)]
pub struct GenericArea<XY, WH> {
    pub x: XY,
    pub y: XY,
    pub width: WH,
    pub height: WH,
}

/// True when every coordinate of `area` fits the 32-bit signed widths.
pub open spec fn area_fits_i32(area: Area) -> bool {
    &&& i32::MIN <= area.x <= i32::MAX
    &&& i32::MIN <= area.y <= i32::MAX
    &&& area.width <= i32::MAX
    &&& area.height <= i32::MAX
}

impl GenericArea<i32, i32> {
    /// Range-checks each coordinate of `area` against 32-bit signed widths
    /// and copies the values exactly; a coordinate out of range fails the
    /// whole conversion, and no partial result is produced.
    pub fn try_from_area(area: &Area) -> (r: Result<GenericArea<i32, i32>, Error>)
        ensures
            match r {
                Ok(g) => {
                    &&& area_fits_i32(*area)
                    &&& g.x == area.x
                    &&& g.y == area.y
                    &&& g.width == area.width
                    &&& g.height == area.height
                },
                Err(e) => {
                    &&& !area_fits_i32(*area)
                    &&& e == Error::AreaIntConversionError
                },
            },
    {
        if area.x < i32::MIN as i64 || area.x > i32::MAX as i64 {
            return Err(Error::AreaIntConversionError);
        }
        if area.y < i32::MIN as i64 || area.y > i32::MAX as i64 {
            return Err(Error::AreaIntConversionError);
        }
        if area.width > i32::MAX as u64 {
            return Err(Error::AreaIntConversionError);
        }
        if area.height > i32::MAX as u64 {
            return Err(Error::AreaIntConversionError);
        }
        Ok(GenericArea {
            x: area.x as i32,
            y: area.y as i32,
            width: area.width as i32,
            height: area.height as i32,
        })
    }
}

} // verus!
