//! Orientation of the rendered raster.
use vstd::prelude::*;

verus! {

/// Where the color computed for logical column `x`, row `y` is stored in a
/// `width` × `height` image.
///
/// The camera counts columns and rows from the opposite corner of the one the
/// image buffer starts at, so both coordinates are mirrored:
/// `(width - 1 - x, height - 1 - y)`. Positions outside the raster give `None`.
pub fn flip_position(width: u32, height: u32, x: u32, y: u32) -> (r: Option<(u32, u32)>)
    ensures
        r == (if x < width && y < height {
            Some(((width - 1 - x) as u32, (height - 1 - y) as u32))
        } else {
            None
        }),
{
    if x < width && y < height {
        Some((width - 1 - x, height - 1 - y))
    } else {
        None
    }
}

} // verus!
