use vstd::prelude::*;

verus! {

/// The larger of the two source dimensions: the edge of the square.
pub open spec fn side_of(w: nat, h: nat) -> nat {
    if w >= h { w } else { h }
}

/// The smaller of the two source dimensions: the divisor of the scale ratio.
pub open spec fn factor_of(w: nat, h: nat) -> nat {
    if w >= h { h } else { w }
}

/// One source dimension scaled by `side / factor`, truncated.
pub open spec fn scaled(d: nat, w: nat, h: nat) -> nat {
    d * side_of(w, h) / factor_of(w, h)
}

/// Offset that centres a square of edge `side` inside a length `len`.
pub open spec fn centred_offset(len: nat, side: nat) -> nat {
    ((len - side) as nat) / 2
}

/// Every size and offset that framing a `width` x `height` image needs.
#[derive(Clone, Copy, Debug, PartialEq, Eq, Structural)]
pub struct Plan {
    pub side: u32,
    pub factor: u32,
    pub resized_width: u64,
    pub resized_height: u64,
    pub crop_x: u64,
    pub crop_y: u64,
}

/// The plan for a `w` x `h` source, as a mathematical value.
pub open spec fn plan_spec(w: nat, h: nat) -> Plan {
    let side = side_of(w, h);
    let rw = scaled(w, w, h);
    let rh = scaled(h, w, h);
    Plan {
        side: side as u32,
        factor: factor_of(w, h) as u32,
        resized_width: rw as u64,
        resized_height: rh as u64,
        crop_x: centred_offset(rw, side) as u64,
        crop_y: centred_offset(rh, side) as u64,
    }
}

proof fn lemma_scaled_bounds(w: nat, h: nat)
    requires
        w > 0,
        h > 0,
    ensures
        scaled(w, w, h) >= side_of(w, h) || scaled(h, w, h) >= side_of(w, h),
        scaled(w, w, h) >= w,
        scaled(h, w, h) >= h,
        w >= h ==> scaled(h, w, h) == w,
        w <= h ==> scaled(w, w, h) == h,
        scaled(w, w, h) <= side_of(w, h) * side_of(w, h),
        scaled(h, w, h) <= side_of(w, h) * side_of(w, h),
{
    let s = side_of(w, h);
    let f = factor_of(w, h);
    assert(f > 0);
    assert(f <= s);
    if w >= h {
        assert(h * w / h == w) by (nonlinear_arith)
            requires h > 0;
        assert(w * w / h >= w) by (nonlinear_arith)
            requires h > 0, w >= h;
        assert(w * w / h <= w * w) by (nonlinear_arith)
            requires h > 0;
    } else {
        assert(w * h / w == h) by (nonlinear_arith)
            requires w > 0;
        assert(h * h / w >= h) by (nonlinear_arith)
            requires w > 0, h >= w;
        assert(h * h / w <= h * h) by (nonlinear_arith)
            requires w > 0;
    }
}

/// Plans the framing of a `w` x `h` image: the square's side is the larger
/// dimension, both dimensions are scaled by `side / factor` (truncated), and
/// the crop offsets centre a `side` x `side` window in the scaled image.
pub fn plan(w: u32, h: u32) -> (p: Plan)
    requires
        w > 0,
        h > 0,
    ensures
        p == plan_spec(w as nat, h as nat),
        p.side as nat == side_of(w as nat, h as nat),
        p.factor as nat == factor_of(w as nat, h as nat),
        p.resized_width as nat == scaled(w as nat, w as nat, h as nat),
        p.resized_height as nat == scaled(h as nat, w as nat, h as nat),
        p.crop_x as nat == centred_offset(p.resized_width as nat, p.side as nat),
        p.crop_y as nat == centred_offset(p.resized_height as nat, p.side as nat),
        p.side <= p.resized_width,
        p.side <= p.resized_height,
        p.crop_x + p.side <= p.resized_width,
        p.crop_y + p.side <= p.resized_height,
        w >= h ==> p.resized_height == w as u64,
        w <= h ==> p.resized_width == h as u64,
        w == h ==> p.resized_width == w as u64 && p.resized_height == h as u64 && p.crop_x
            == 0 && p.crop_y == 0,
{
    let side: u32 = if w >= h { w } else { h };
    let factor: u32 = if w >= h { h } else { w };
    proof {
        lemma_scaled_bounds(w as nat, h as nat);
        assert(side as nat * side as nat <= u64::MAX) by (nonlinear_arith)
            requires side as nat <= u32::MAX;
        assert(w as nat * side as nat <= side as nat * side as nat) by (nonlinear_arith)
            requires w <= side;
        assert(h as nat * side as nat <= side as nat * side as nat) by (nonlinear_arith)
            requires h <= side;
    }
    let resized_width: u64 = (w as u64) * (side as u64) / (factor as u64);
    let resized_height: u64 = (h as u64) * (side as u64) / (factor as u64);
    let crop_x: u64 = (resized_width - side as u64) / 2;
    let crop_y: u64 = (resized_height - side as u64) / 2;
    Plan { side, factor, resized_width, resized_height, crop_x, crop_y }
}

} // verus!
