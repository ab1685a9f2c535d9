use square_frame::crop::crop_square;
use square_frame::geometry::plan;
use square_frame::raster::Image;

fn gradient(width: u32, height: u32) -> Image {
    let mut pixels = Vec::new();
    for y in 0..height {
        for x in 0..width {
            pixels.push([(x % 256) as u8, (y % 256) as u8, ((x + y) % 256) as u8]);
        }
    }
    Image { width, height, pixels }
}

#[test]
fn plan_tall_source() {
    let p = plan(100, 200);
    assert_eq!(p.side, 200);
    assert_eq!(p.factor, 100);
    assert_eq!((p.resized_width, p.resized_height), (200, 400));
    assert_eq!((p.crop_x, p.crop_y), (0, 100));
}

#[test]
fn plan_wide_source() {
    let p = plan(300, 120);
    assert_eq!(p.side, 300);
    assert_eq!(p.factor, 120);
    assert_eq!((p.resized_width, p.resized_height), (750, 300));
    assert_eq!((p.crop_x, p.crop_y), (225, 0));
}

#[test]
fn plan_truncates_the_ratio() {
    let p = plan(3, 7);
    assert_eq!(p.side, 7);
    assert_eq!(p.factor, 3);
    assert_eq!((p.resized_width, p.resized_height), (7, 16));
    assert_eq!((p.crop_x, p.crop_y), (0, 4));
}

#[test]
fn plan_side_is_larger_dimension() {
    for (w, h) in [(1, 1), (1, 9), (9, 1), (640, 480), (480, 640), (17, 16)] {
        assert_eq!(plan(w, h).side, w.max(h));
    }
}

#[test]
fn plan_square_is_identity() {
    for w in [1u32, 2, 50, 1000] {
        let p = plan(w, w);
        assert_eq!((p.resized_width, p.resized_height), (w as u64, w as u64));
        assert_eq!((p.crop_x, p.crop_y), (0, 0));
        assert_eq!(p.factor, w);
    }
}

#[test]
fn plan_extreme_dimensions() {
    let p = plan(1, u32::MAX);
    assert_eq!(p.side, u32::MAX);
    assert_eq!(p.resized_width, u32::MAX as u64);
    assert_eq!(p.resized_height, (u32::MAX as u64) * (u32::MAX as u64));
}

#[test]
fn crop_is_side_by_side() {
    let src = gradient(10, 6);
    let r = crop_square(&src, 3, 1, 5);
    assert_eq!((r.width, r.height), (5, 5));
    assert_eq!(r.pixels.len(), 25);
    for y in 0..5u32 {
        for x in 0..5u32 {
            let got = r.pixels[(y * 5 + x) as usize];
            assert_eq!(got, [(x + 3) as u8, (y + 1) as u8, (x + y + 4) as u8]);
        }
    }
}

#[test]
fn crop_whole_image() {
    let src = gradient(4, 4);
    let r = crop_square(&src, 0, 0, 4);
    assert_eq!(r.pixels, src.pixels);
}
