use vstd::prelude::*;
use crate::raster::{Image, Rgb};

verus! {

/// Bound (exclusive) on each dimension of a resize target: below 2^23 the
/// image crate's `f32` sample positions stay exact to half a pixel, so every
/// output pixel gets a positive filter weight.
pub const RESAMPLE_DIM_LIMIT: u32 = 0x80_0000;

/// The pixels that the image crate's triangle-filter resize gives when a
/// `width` x `height` row-major RGB buffer is resampled to
/// `new_width` x `new_height`.
pub uninterp spec fn triangle_resized(
    pixels: Seq<Rgb>,
    width: nat,
    height: nat,
    new_width: nat,
    new_height: nat,
) -> Seq<Rgb>;

/// Relies on image::imageops::resize with FilterType::Triangle: the result
/// has the requested dimensions, depends on the source pixels and the
/// dimensions alone, and is a plain copy when the dimensions do not change.
/// The bound on `4 * new_width * new_height` keeps the crate's intermediate
/// four-channel buffer within `usize`; the bound on each dimension keeps its
/// `f32` sample positions exact, past which a row's weights can all be zero
/// and the normalised NaN makes the final cast panic.
#[verifier::external_body]
fn resize_triangle(src: &Image, new_width: u32, new_height: u32) -> (r: Vec<Rgb>)
    requires
        src.wf(),
        src.width <= new_width,
        src.height <= new_height,
        new_width < RESAMPLE_DIM_LIMIT,
        new_height < RESAMPLE_DIM_LIMIT,
        4 * (new_width as nat * new_height as nat) <= usize::MAX,
    ensures
        r@ == triangle_resized(
            src.pixels@,
            src.width as nat,
            src.height as nat,
            new_width as nat,
            new_height as nat,
        ),
        r@.len() == new_width as nat * new_height as nat,
        new_width == src.width && new_height == src.height ==> r@ == src.pixels@,
{
    let raw: Vec<u8> = src.pixels.concat();
    let buf: image::RgbImage = image::ImageBuffer::from_raw(src.width, src.height, raw).unwrap();
    let out = image::imageops::resize(&buf, new_width, new_height, image::imageops::FilterType::Triangle);
    out.pixels().map(|p| p.0).collect()
}

/// Returns a copy of `src` upscaled to `new_width` x `new_height` with a
/// triangle (bilinear) filter.
pub fn upscale(src: &Image, new_width: u32, new_height: u32) -> (r: Image)
    requires
        src.wf(),
        src.width <= new_width,
        src.height <= new_height,
        new_width < RESAMPLE_DIM_LIMIT,
        new_height < RESAMPLE_DIM_LIMIT,
        4 * (new_width as nat * new_height as nat) <= usize::MAX,
    ensures
        r.wf(),
        r.width == new_width,
        r.height == new_height,
        r.pixels@ == triangle_resized(
            src.pixels@,
            src.width as nat,
            src.height as nat,
            new_width as nat,
            new_height as nat,
        ),
        new_width == src.width && new_height == src.height ==> r.pixels@ == src.pixels@,
{
    let pixels = resize_triangle(src, new_width, new_height);
    Image { width: new_width, height: new_height, pixels }
}

} // verus!
