use vstd::prelude::*;
use crate::blur::{blur, blurred};
use crate::composite::{lemma_span_len, overlay, span_start};
use crate::crop::{crop_square, cropped};
use crate::geometry::{centred_offset, plan, scaled, side_of};
use crate::raster::{grid, Image, Rgb};
use crate::resample::{triangle_resized, upscale, RESAMPLE_DIM_LIMIT};

verus! {

/// Blur radius of the background in the standard framing.
pub const BACKGROUND_BLUR_RADIUS: u16 = 16;

/// Whether the scaled copy of a `w` x `h` image can be made: each of its
/// dimensions is below `RESAMPLE_DIM_LIMIT` and its four-channel working
/// buffer fits in `usize`.
pub open spec fn frame_fits(w: nat, h: nat) -> bool {
    &&& scaled(w, w, h) < RESAMPLE_DIM_LIMIT
    &&& scaled(h, w, h) < RESAMPLE_DIM_LIMIT
    &&& 4 * (scaled(w, w, h) * scaled(h, w, h)) <= usize::MAX
}

/// The background of the frame: the source scaled by `side / factor`, its
/// centred `side` x `side` window, blurred with `radius`.
pub open spec fn background(pixels: Seq<Rgb>, w: nat, h: nat, radius: nat) -> Seq<Rgb> {
    let side = side_of(w, h);
    let rw = scaled(w, w, h);
    let rh = scaled(h, w, h);
    blurred(
        cropped(
            triangle_resized(pixels, w, h, rw, rh),
            rw,
            centred_offset(rw, side),
            centred_offset(rh, side),
            side,
        ),
        side,
        side,
        radius,
    )
}

/// Whether column `x`, row `y` of the square lies under the centred source.
pub open spec fn under_source(src: &Image, x: int, y: int) -> bool {
    let side = side_of(src.width as nat, src.height as nat);
    let x0 = span_start(side, src.width as nat);
    let y0 = span_start(side, src.height as nat);
    x0 <= x < x0 + src.width && y0 <= y < y0 + src.height
}

/// The pixel of the framed image at column `x`, row `y`: the source pixel
/// under the centred source rectangle, the background pixel elsewhere.
pub open spec fn framed_pixel(src: &Image, radius: nat, x: int, y: int) -> Rgb {
    let w = src.width as nat;
    let h = src.height as nat;
    let side = side_of(w, h);
    if under_source(src, x, y) {
        src.at(x - span_start(side, w), y - span_start(side, h))
    } else {
        grid(background(src.pixels@, w, h, radius), side as int, x, y)
    }
}

/// Whether a `w` x `h` image can be framed here (see `frame_fits`).
pub fn can_frame(w: u32, h: u32) -> (r: bool)
    requires
        w > 0,
        h > 0,
    ensures
        r == frame_fits(w as nat, h as nat),
{
    let p = plan(w, h);
    if p.resized_width >= RESAMPLE_DIM_LIMIT as u64 || p.resized_height >= RESAMPLE_DIM_LIMIT as u64 {
        return false;
    }
    proof {
        assert(p.resized_width as nat * p.resized_height as nat <= u64::MAX) by (nonlinear_arith)
            requires p.resized_width <= u32::MAX, p.resized_height <= u32::MAX;
    }
    let area: u64 = p.resized_width * p.resized_height;
    area <= (usize::MAX as u64) / 4
}

/// The background of the frame for `src`: the source scaled to cover the
/// square, cropped to its centre and blurred with `radius`.
pub fn frame_background(src: &Image, radius: u16) -> (bg: Image)
    requires
        src.wf(),
        frame_fits(src.width as nat, src.height as nat),
    ensures
        bg.wf(),
        bg.width as nat == side_of(src.width as nat, src.height as nat),
        bg.height as nat == side_of(src.width as nat, src.height as nat),
        bg.pixels@ == background(src.pixels@, src.width as nat, src.height as nat, radius as nat),
{
    let p = plan(src.width, src.height);
    let resized = upscale(src, p.resized_width as u32, p.resized_height as u32);
    let square = crop_square(&resized, p.crop_x as u32, p.crop_y as u32, p.side);
    blur(&square, radius)
}

/// Frames `src` in a square of edge `max(width, height)`: the source scaled
/// to cover the square, cropped to its centre and blurred with `radius`
/// forms the background, and the unscaled source is placed centred on it.
pub fn frame_square(src: &Image, radius: u16) -> (r: Image)
    requires
        src.wf(),
        frame_fits(src.width as nat, src.height as nat),
    ensures
        r.wf(),
        r.width as nat == side_of(src.width as nat, src.height as nat),
        r.height as nat == side_of(src.width as nat, src.height as nat),
        forall|x: int, y: int|
            0 <= x < r.width && 0 <= y < r.height ==> #[trigger] r.at(x, y) == framed_pixel(
                src,
                radius as nat,
                x,
                y,
            ),
        src.width == src.height ==> forall|x: int, y: int|
            0 <= x < r.width && 0 <= y < r.height ==> #[trigger] r.at(x, y) == src.at(x, y),
{
    let bg = frame_background(src, radius);
    let side = bg.width;
    let r = overlay(&bg, src);
    proof {
        lemma_span_len(side as nat, src.width as nat);
        lemma_span_len(side as nat, src.height as nat);
        assert(bg.pixels@ == background(
            src.pixels@,
            src.width as nat,
            src.height as nat,
            radius as nat,
        ));
        assert forall|x: int, y: int|
            0 <= x < r.width && 0 <= y < r.height implies #[trigger] r.at(x, y) == framed_pixel(
                src,
                radius as nat,
                x,
                y,
            ) by {
            assert(r.at(x, y) == crate::composite::overlay_pixel(&bg, src, x, y));
        }
        if src.width == src.height {
            assert forall|x: int, y: int|
                0 <= x < r.width && 0 <= y < r.height implies #[trigger] r.at(x, y) == src.at(
                    x,
                    y,
                ) by {
                assert(r.at(x, y) == crate::composite::overlay_pixel(&bg, src, x, y));
            }
        }
    }
    r
}

} // verus!
