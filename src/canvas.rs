//! The raster that a scene is rendered into, as the `raster` crate defines it.
use vstd::prelude::*;

verus! {

/// raster's `Color`: four public `u8` channels.
#[verifier::external_type_specification]
pub struct ExColor(raster::Color);

/// raster's `Image`: public `width`, `height` and RGBA `bytes`, row by row.
#[verifier::external_type_specification]
pub struct ExImage(raster::Image);

/// raster's error type, carried through unopened.
#[verifier::external_type_specification]
#[verifier::external_body]
pub struct ExRasterError(raster::error::RasterError);

/// Index of the first byte of pixel `(x, y)` in an image `width` pixels wide.
pub open spec fn pixel_start(width: int, x: int, y: int) -> int {
    4 * (y * width + x)
}

/// The four bytes of pixel `(x, y)`.
pub open spec fn pixel_at(image: raster::Image, x: int, y: int) -> (u8, u8, u8, u8) {
    let s = pixel_start(image.width as int, x, y);
    (image.bytes@[s], image.bytes@[s + 1], image.bytes@[s + 2], image.bytes@[s + 3])
}

/// The channels of `c` in the order they are stored.
pub open spec fn rgba(c: raster::Color) -> (u8, u8, u8, u8) {
    (c.r, c.g, c.b, c.a)
}

/// The image's byte buffer holds its `width * height` pixels, and every
/// byte index fits in an `i32`, as raster computes it.
pub open spec fn well_formed(image: raster::Image) -> bool {
    &&& 0 <= image.width
    &&& 0 <= image.height
    &&& image.bytes.len() == 4 * (image.width * image.height)
    &&& 4 * (image.width * image.height) <= i32::MAX
}

/// Relies on raster's `Image::set_pixel`: for a pixel inside the image it
/// writes `color`'s four channels at byte `4 * (y * width + x)` and returns
/// `Ok`; the index is computed in `i32` and must not overflow.
pub assume_specification<'a>[ raster::Image::set_pixel ](
    image: &mut raster::Image,
    x: i32,
    y: i32,
    color: raster::Color,
) -> (r: raster::error::RasterResult<()>)
    requires
        0 <= x < old(image).width,
        0 <= y < old(image).height,
        pixel_start(old(image).width as int, x as int, y as int) + 4 <= old(image).bytes.len(),
        pixel_start(old(image).width as int, x as int, y as int) + 3 <= i32::MAX,
    ensures
        r is Ok,
        final(image).width == old(image).width,
        final(image).height == old(image).height,
        final(image).bytes@ == old(image).bytes@.update(
            pixel_start(old(image).width as int, x as int, y as int),
            color.r,
        ).update(pixel_start(old(image).width as int, x as int, y as int) + 1, color.g).update(
            pixel_start(old(image).width as int, x as int, y as int) + 2,
            color.b,
        ).update(pixel_start(old(image).width as int, x as int, y as int) + 3, color.a),
;

} // verus!
