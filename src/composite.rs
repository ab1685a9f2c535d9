use vstd::prelude::*;
use crate::raster::{grid, grid_index, lemma_grid_index, Image, Rgb};

verus! {

/// Start of the centred span of length `inner` inside a span of length `outer`.
pub open spec fn span_start(outer: nat, inner: nat) -> nat {
    ((outer - inner) as nat) / 2
}

/// End (exclusive) of the centred span of length `inner` inside `outer`.
pub open spec fn span_end(outer: nat, inner: nat) -> nat {
    (outer + inner) / 2
}

/// Whether column `x`, row `y` of `bg` lies in the rectangle where `fg` is placed.
pub open spec fn in_centred_rect(bg: &Image, fg: &Image, x: int, y: int) -> bool {
    &&& span_start(bg.width as nat, fg.width as nat) <= x
    &&& x < span_end(bg.width as nat, fg.width as nat)
    &&& span_start(bg.height as nat, fg.height as nat) <= y
    &&& y < span_end(bg.height as nat, fg.height as nat)
}

/// The pixel of the overlay of `fg`, centred, on `bg` at column `x`, row `y`.
pub open spec fn overlay_pixel(bg: &Image, fg: &Image, x: int, y: int) -> Rgb {
    if in_centred_rect(bg, fg, x, y) {
        fg.at(
            x - span_start(bg.width as nat, fg.width as nat),
            y - span_start(bg.height as nat, fg.height as nat),
        )
    } else {
        bg.at(x, y)
    }
}

/// The centred span always has exactly the inner length, whatever the parities.
pub proof fn lemma_span_len(outer: nat, inner: nat)
    requires
        inner <= outer,
    ensures
        span_end(outer, inner) == span_start(outer, inner) + inner,
{
}

/// Overlays `fg`, unscaled and centred, on `bg`: inside the centred rectangle
/// the result holds the matching `fg` pixel, elsewhere the `bg` pixel.
pub fn overlay(bg: &Image, fg: &Image) -> (r: Image)
    requires
        bg.wf(),
        fg.wf(),
        fg.width <= bg.width,
        fg.height <= bg.height,
    ensures
        r.wf(),
        r.width == bg.width,
        r.height == bg.height,
        forall|x: int, y: int|
            0 <= x < r.width && 0 <= y < r.height ==> #[trigger] r.at(x, y) == overlay_pixel(
                bg,
                fg,
                x,
                y,
            ),
{
    let bw = bg.width;
    let bh = bg.height;
    let fw = fg.width;
    let fh = fg.height;
    let x0: u32 = (bw - fw) / 2;
    let x1: u32 = x0 + fw;
    let y0: u32 = (bh - fh) / 2;
    let y1: u32 = y0 + fh;
    proof {
        lemma_span_len(bw as nat, fw as nat);
        lemma_span_len(bh as nat, fh as nat);
    }
    let mut out: Vec<Rgb> = Vec::new();
    let mut y: u32 = 0;
    while y < bh
        invariant
            bg.wf(),
            fg.wf(),
            bw == bg.width,
            bh == bg.height,
            fw == fg.width,
            fh == fg.height,
            x0 == span_start(bw as nat, fw as nat),
            x1 == span_end(bw as nat, fw as nat),
            y0 == span_start(bh as nat, fh as nat),
            y1 == span_end(bh as nat, fh as nat),
            x1 == x0 + fw,
            y1 == y0 + fh,
            y <= bh,
            out@.len() == y as int * bw as int,
            forall|i: int, j: int|
                0 <= i < bw && 0 <= j < y ==> #[trigger] grid(out@, bw as int, i, j)
                    == overlay_pixel(bg, fg, i, j),
        decreases bh - y,
    {
        let mut x: u32 = 0;
        while x < bw
            invariant
                bg.wf(),
                fg.wf(),
                bw == bg.width,
                bh == bg.height,
                fw == fg.width,
                fh == fg.height,
                x0 == span_start(bw as nat, fw as nat),
                x1 == span_end(bw as nat, fw as nat),
                y0 == span_start(bh as nat, fh as nat),
                y1 == span_end(bh as nat, fh as nat),
                x1 == x0 + fw,
                y1 == y0 + fh,
                y < bh,
                x <= bw,
                out@.len() == y as int * bw as int + x as int,
                forall|i: int, j: int|
                    0 <= i < bw && 0 <= j < y ==> #[trigger] grid(out@, bw as int, i, j)
                        == overlay_pixel(bg, fg, i, j),
                forall|i: int|
                    0 <= i < x ==> #[trigger] grid(out@, bw as int, i, y as int)
                        == overlay_pixel(bg, fg, i, y as int),
            decreases bw - x,
        {
            let px: Rgb = if x0 <= x && x < x1 && y0 <= y && y < y1 {
                let k = grid_index(x - x0, y - y0, fw, fh, fg.pixels.len());
                fg.pixels[k]
            } else {
                let k = grid_index(x, y, bw, bh, bg.pixels.len());
                bg.pixels[k]
            };
            let ghost before = out@;
            out.push(px);
            proof {
                lemma_grid_index(x as int, y as int, bw as int, bh as int);
                assert forall|i: int, j: int|
                    0 <= i < bw && 0 <= j < y implies #[trigger] grid(out@, bw as int, i, j)
                        == overlay_pixel(bg, fg, i, j) by {
                    lemma_grid_index(i, j, bw as int, bh as int);
                    assert(grid(before, bw as int, i, j) == overlay_pixel(bg, fg, i, j));
                }
                assert forall|i: int|
                    0 <= i <= x implies #[trigger] grid(out@, bw as int, i, y as int)
                        == overlay_pixel(bg, fg, i, y as int) by {
                    if i < x {
                        assert(grid(before, bw as int, i, y as int) == overlay_pixel(
                            bg,
                            fg,
                            i,
                            y as int,
                        ));
                    }
                }
            }
            x = x + 1;
        }
        assert((y as int + 1) * bw as int == y as int * bw as int + bw as int)
            by (nonlinear_arith);
        y = y + 1;
    }
    assert(bh as int * bw as int == bw as int * bh as int) by (nonlinear_arith);
    let r = Image { width: bw, height: bh, pixels: out };
    assert forall|x: int, y: int|
        0 <= x < r.width && 0 <= y < r.height implies #[trigger] r.at(x, y) == overlay_pixel(
            bg,
            fg,
            x,
            y,
        ) by {
        assert(grid(out@, bw as int, x, y) == overlay_pixel(bg, fg, x, y));
    }
    r
}

} // verus!
