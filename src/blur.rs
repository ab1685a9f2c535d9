use vstd::prelude::*;
use crate::raster::{Image, Rgb};

verus! {

/// The pixels that fastblur::gaussian_blur leaves in a `width` x `height`
/// row-major RGB buffer for a positive radius (its box-blur approximation of
/// a Gaussian blur).
pub uninterp spec fn box_gauss_blurred(
    pixels: Seq<Rgb>,
    width: nat,
    height: nat,
    radius: nat,
) -> Seq<Rgb>;

/// Relies on fastblur::gaussian_blur: it blurs the buffer in place, keeping
/// its length, and its output depends on the pixels, dimensions and radius
/// alone (a radius of zero never reaches it). The buffer must be square: the
/// horizontal pass subtracts the height where the box radius exceeds the
/// width, which underflows on a narrow, tall buffer.
#[verifier::external_body]
fn gaussian_blur_in_place(data: &mut Vec<Rgb>, width: usize, height: usize, radius: u16)
    requires
        width > 0,
        width == height,
        radius > 0,
        old(data)@.len() == width as nat * height as nat,
    ensures
        final(data)@ == box_gauss_blurred(old(data)@, width as nat, height as nat, radius as nat),
        final(data)@.len() == old(data)@.len(),
{
    fastblur::gaussian_blur(data, width, height, radius.into())
}

/// The blurred pixels: a radius of zero leaves the image as it is.
pub open spec fn blurred(pixels: Seq<Rgb>, width: nat, height: nat, radius: nat) -> Seq<Rgb> {
    if radius == 0 {
        pixels
    } else {
        box_gauss_blurred(pixels, width, height, radius)
    }
}

/// A pixel-for-pixel copy of `v`.
pub fn copy_pixels(v: &Vec<Rgb>) -> (r: Vec<Rgb>)
    ensures
        r@ == v@,
{
    let mut r: Vec<Rgb> = Vec::new();
    let mut i: usize = 0;
    while i < v.len()
        invariant
            i <= v@.len(),
            r@ == v@.subrange(0, i as int),
        decreases v@.len() - i,
    {
        r.push(v[i]);
        i = i + 1;
        assert(r@ =~= v@.subrange(0, i as int));
    }
    assert(r@ =~= v@);
    r
}

/// Returns a blurred copy of the square `image`, `radius` being the blur
/// intensity; a radius of zero is the identity.
pub fn blur(image: &Image, radius: u16) -> (r: Image)
    requires
        image.wf(),
        image.width == image.height,
    ensures
        r.wf(),
        r.width == image.width,
        r.height == image.height,
        r.pixels@ == blurred(image.pixels@, image.width as nat, image.height as nat, radius as nat),
        radius == 0 ==> r.pixels@ == image.pixels@,
{
    let mut pixels = copy_pixels(&image.pixels);
    if radius > 0 {
        gaussian_blur_in_place(&mut pixels, image.width as usize, image.height as usize, radius);
    }
    Image { width: image.width, height: image.height, pixels }
}

/// Blurring is deterministic: equal pixels, dimensions and radius give equal
/// output.
pub proof fn lemma_blur_deterministic(
    a: Seq<Rgb>,
    b: Seq<Rgb>,
    width: nat,
    height: nat,
    radius: nat,
)
    requires
        a == b,
    ensures
        blurred(a, width, height, radius) == blurred(b, width, height, radius),
{
}

} // verus!
