use vstd::prelude::*;
use vstd::arithmetic::div_mod::{lemma_fundamental_div_mod, lemma_mod_pos_bound};
use crate::raster::{grid, grid_index, lemma_grid_index, Image, Rgb};

verus! {

/// The `side` x `side` window of the row-major grid `s` (row length `w`)
/// whose top-left corner is at column `cx`, row `cy`, in row-major order.
pub open spec fn cropped(s: Seq<Rgb>, w: nat, cx: nat, cy: nat, side: nat) -> Seq<Rgb> {
    Seq::new(side * side, |k: int| grid(s, w as int, k % side as int + cx, k / side as int + cy))
}

/// Copies the `side` x `side` window of `src` whose top-left corner is at
/// column `crop_x`, row `crop_y`, pixel for pixel.
pub fn crop_square(src: &Image, crop_x: u32, crop_y: u32, side: u32) -> (r: Image)
    requires
        src.wf(),
        side > 0,
        crop_x + side <= src.width,
        crop_y + side <= src.height,
    ensures
        r.wf(),
        r.width == side,
        r.height == side,
        r.pixels@ == cropped(src.pixels@, src.width as nat, crop_x as nat, crop_y as nat, side as nat),
        forall|x: int, y: int|
            0 <= x < side && 0 <= y < side ==> #[trigger] r.at(x, y) == src.at(
                x + crop_x,
                y + crop_y,
            ),
{
    let mut out: Vec<Rgb> = Vec::new();
    let mut y: u32 = 0;
    while y < side
        invariant
            src.wf(),
            side > 0,
            crop_x + side <= src.width,
            crop_y + side <= src.height,
            y <= side,
            out@.len() == y as int * side as int,
            forall|i: int, j: int|
                0 <= i < side && 0 <= j < y ==> #[trigger] grid(out@, side as int, i, j)
                    == src.at(i + crop_x, j + crop_y),
        decreases side - y,
    {
        let mut x: u32 = 0;
        while x < side
            invariant
                src.wf(),
                side > 0,
                crop_x + side <= src.width,
                crop_y + side <= src.height,
                y < side,
                x <= side,
                out@.len() == y as int * side as int + x as int,
                forall|i: int, j: int|
                    0 <= i < side && 0 <= j < y ==> #[trigger] grid(out@, side as int, i, j)
                        == src.at(i + crop_x, j + crop_y),
                forall|i: int|
                    0 <= i < x ==> #[trigger] grid(out@, side as int, i, y as int) == src.at(
                        i + crop_x,
                        y + crop_y,
                    ),
            decreases side - x,
        {
            let k = grid_index(x + crop_x, y + crop_y, src.width, src.height, src.pixels.len());
            let px: Rgb = src.pixels[k];
            let ghost before = out@;
            out.push(px);
            proof {
                lemma_grid_index(x as int, y as int, side as int, side as int);
                assert forall|i: int, j: int|
                    0 <= i < side && 0 <= j < y implies #[trigger] grid(out@, side as int, i, j)
                        == src.at(i + crop_x, j + crop_y) by {
                    lemma_grid_index(i, j, side as int, side as int);
                    assert(grid(before, side as int, i, j) == src.at(i + crop_x, j + crop_y));
                }
                assert forall|i: int|
                    0 <= i <= x implies #[trigger] grid(out@, side as int, i, y as int) == src.at(
                        i + crop_x,
                        y + crop_y,
                    ) by {
                    if i < x {
                        assert(grid(before, side as int, i, y as int) == src.at(
                            i + crop_x,
                            y + crop_y,
                        ));
                    }
                }
            }
            x = x + 1;
        }
        assert((y as int + 1) * side as int == y as int * side as int + side as int)
            by (nonlinear_arith);
        y = y + 1;
    }
    let r = Image { width: side, height: side, pixels: out };
    assert forall|x: int, y: int|
        0 <= x < side && 0 <= y < side implies #[trigger] r.at(x, y) == src.at(
            x + crop_x,
            y + crop_y,
        ) by {
        assert(grid(out@, side as int, x, y) == src.at(x + crop_x, y + crop_y));
    }
    let ghost want = cropped(src.pixels@, src.width as nat, crop_x as nat, crop_y as nat, side as nat);
    assert forall|k: int| 0 <= k < side as int * side as int implies #[trigger] r.pixels@[k] == want[k] by {
        let s = side as int;
        let x = k % s;
        let y = k / s;
        lemma_fundamental_div_mod(k, s);
        lemma_mod_pos_bound(k, s);
        assert(0 <= y < s) by (nonlinear_arith)
            requires k == s * y + x, 0 <= x < s, 0 <= k < s * s;
        assert(y * s + x == k) by (nonlinear_arith)
            requires k == s * y + x;
        assert(r.at(x, y) == src.at(x + crop_x, y + crop_y));
    }
    assert(r.pixels@ =~= want);
    r
}

} // verus!
