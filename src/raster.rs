use vstd::prelude::*;

verus! {

/// One RGB pixel: red, green and blue channel values.
pub type Rgb = [u8; 3];

/// A row-major RGB image.
pub struct Image {
    pub width: u32,
    pub height: u32,
    pub pixels: Vec<Rgb>,
}

impl Image {
    /// Positive dimensions and one pixel per grid position.
    pub open spec fn wf(&self) -> bool {
        &&& self.width > 0
        &&& self.height > 0
        &&& self.pixels@.len() == self.width as nat * self.height as nat
    }

    /// The pixel at column `x`, row `y`.
    pub open spec fn at(&self, x: int, y: int) -> Rgb {
        self.pixels@[y * self.width + x]
    }
}

} // verus!

verus! {

/// The entry of a row-major grid of row length `w` at column `x`, row `y`.
pub open spec fn grid(s: Seq<Rgb>, w: int, x: int, y: int) -> Rgb {
    s[y * w + x]
}

/// Row-major positions of a `w` x `h` grid fall inside it, and rows before
/// `y` end before row `y` starts.
pub proof fn lemma_grid_index(x: int, y: int, w: int, h: int)
    requires
        0 <= x < w,
        0 <= y < h,
    ensures
        0 <= y * w + x < w * h,
        y * w + x < (y + 1) * w,
        (y + 1) * w <= w * h,
        forall|j: int| y < j ==> #[trigger] (j * w) >= (y + 1) * w,
{
    assert(0 <= y * w + x < w * h) by (nonlinear_arith)
        requires 0 <= x < w, 0 <= y < h;
    assert((y + 1) * w <= w * h) by (nonlinear_arith)
        requires 0 <= x < w, 0 <= y < h;
    assert(y * w + x < (y + 1) * w) by (nonlinear_arith)
        requires 0 <= x < w;
    assert forall|j: int| y < j implies #[trigger] (j * w) >= (y + 1) * w by {
        assert(j * w >= (y + 1) * w) by (nonlinear_arith)
            requires y < j, 0 < w;
    }
}

/// Row-major index of column `x`, row `y` in a grid of row length `w`.
pub fn grid_index(x: u32, y: u32, w: u32, h: u32, len: usize) -> (k: usize)
    requires
        x < w,
        y < h,
        len == w as nat * h as nat,
    ensures
        k as int == y as int * w as int + x as int,
        k < len,
{
    proof {
        lemma_grid_index(x as int, y as int, w as int, h as int);
    }
    y as usize * w as usize + x as usize
}

} // verus!

verus! {

/// Whether `p` holds the first three channel values of pixel `k` of an
/// interleaved buffer with `channels` bytes per pixel.
pub open spec fn holds_pixel(p: Rgb, bytes: Seq<u8>, channels: nat, k: int) -> bool {
    p@ == seq![bytes[channels * k], bytes[channels * k + 1], bytes[channels * k + 2]]
}

/// Whether an interleaved buffer can describe a `width` x `height` image.
pub open spec fn describes_image(width: nat, height: nat, len: nat, channels: nat) -> bool {
    &&& 0 < width <= u32::MAX
    &&& 0 < height <= u32::MAX
    &&& channels * (width * height) <= len
}

impl Image {
    /// Builds an image from an interleaved buffer with `channels` (3 or 4)
    /// bytes per pixel, keeping the first three of each: `None` when a
    /// dimension is zero or above `u32::MAX`, or the buffer is too short.
    pub fn from_interleaved(width: usize, height: usize, bytes: &Vec<u8>, channels: usize) -> (r:
        Option<Image>)
        requires
            channels == 3 || channels == 4,
        ensures
            r.is_some() == describes_image(width as nat, height as nat, bytes@.len(), channels as nat),
            r matches Some(img) ==> {
                &&& img.wf()
                &&& img.width == width
                &&& img.height == height
                &&& forall|k: int|
                    0 <= k < img.pixels@.len() ==> holds_pixel(
                        #[trigger] img.pixels@[k],
                        bytes@,
                        channels as nat,
                        k,
                    )
            },
    {
        let len = bytes.len();
        if width == 0 || height == 0 || width > u32::MAX as usize || height > u32::MAX as usize {
            return None;
        }
        let n = match width.checked_mul(height) {
            Some(n) => n,
            None => {
                proof {
                    assert(channels * (width as nat * height as nat) >= width as nat * height as nat)
                        by (nonlinear_arith)
                        requires channels >= 1;
                }
                return None;
            },
        };
        let bytes_needed = match channels.checked_mul(n) {
            Some(b) => b,
            None => return None,
        };
        if bytes_needed > len {
            return None;
        }
        let mut pixels: Vec<Rgb> = Vec::new();
        let mut k: usize = 0;
        while k < n
            invariant
                channels == 3 || channels == 4,
                n == width as nat * height as nat,
                channels * n <= bytes@.len(),
                bytes@.len() <= usize::MAX,
                k <= n,
                pixels@.len() == k,
                forall|i: int|
                    0 <= i < k ==> holds_pixel(#[trigger] pixels@[i], bytes@, channels as nat, i),
            decreases n - k,
        {
            proof {
                assert(channels * k + channels <= channels * n) by (nonlinear_arith)
                    requires k < n, channels >= 3;
            }
            let base = channels * k;
            let px: Rgb = [bytes[base], bytes[base + 1], bytes[base + 2]];
            assert(px@ =~= seq![bytes@[base as int], bytes@[base + 1], bytes@[base + 2]]);
            pixels.push(px);
            k = k + 1;
        }
        Some(Image { width: width as u32, height: height as u32, pixels })
    }

    /// The image as RGBA bytes, four per pixel in row-major order, fully opaque.
    pub fn to_rgba_bytes(&self) -> (r: Vec<u8>)
        requires
            4 * self.pixels@.len() <= usize::MAX,
        ensures
            r@.len() == 4 * self.pixels@.len(),
            forall|k: int|
                0 <= k < self.pixels@.len() ==> {
                    &&& holds_pixel(#[trigger] self.pixels@[k], r@, 4, k)
                    &&& r@[4 * k + 3] == 255
                },
    {
        let mut out: Vec<u8> = Vec::new();
        let mut k: usize = 0;
        while k < self.pixels.len()
            invariant
                4 * self.pixels@.len() <= usize::MAX,
                k <= self.pixels@.len(),
                out@.len() == 4 * k,
                forall|i: int|
                    0 <= i < k ==> {
                        &&& holds_pixel(#[trigger] self.pixels@[i], out@, 4, i)
                        &&& out@[4 * i + 3] == 255
                    },
            decreases self.pixels@.len() - k,
        {
            let px: Rgb = self.pixels[k];
            let ghost before = out@;
            out.push(px[0]);
            out.push(px[1]);
            out.push(px[2]);
            out.push(255u8);
            assert forall|i: int| 0 <= i <= k implies {
                &&& holds_pixel(#[trigger] self.pixels@[i], out@, 4, i)
                &&& out@[4 * i + 3] == 255
            } by {
                if i < k {
                    assert(out@[4 * i] == before[4 * i]);
                    assert(out@[4 * i + 1] == before[4 * i + 1]);
                    assert(out@[4 * i + 2] == before[4 * i + 2]);
                    assert(out@[4 * i + 3] == before[4 * i + 3]);
                } else {
                    assert(self.pixels@[i]@ =~= seq![px[0], px[1], px[2]]);
                }
            }
            k = k + 1;
        }
        out
    }
}

} // verus!
