use square_frame::blur::blur;
use square_frame::composite::overlay;
use square_frame::pipeline::{can_frame, frame_square, BACKGROUND_BLUR_RADIUS};
use square_frame::raster::Image;
use square_frame::resample::upscale;

fn solid(width: u32, height: u32, px: [u8; 3]) -> Image {
    Image { width, height, pixels: vec![px; (width * height) as usize] }
}

fn pattern(width: u32, height: u32) -> Image {
    let mut pixels = Vec::new();
    for y in 0..height {
        for x in 0..width {
            pixels.push([(x * 7 % 256) as u8, (y * 3 % 256) as u8, ((x * y) % 256) as u8]);
        }
    }
    Image { width, height, pixels }
}

fn spot(side: u32) -> Image {
    let mut img = solid(side, side, [0, 0, 0]);
    let c = side / 2;
    img.pixels[(c * side + c) as usize] = [255, 255, 255];
    img
}

fn lit(img: &Image) -> usize {
    img.pixels.iter().filter(|p| **p != [0, 0, 0]).count()
}

#[test]
fn overlay_inside_and_outside() {
    let bg = solid(5, 4, [9, 9, 9]);
    let fg = pattern(2, 3);
    let r = overlay(&bg, &fg);
    assert_eq!((r.width, r.height), (5, 4));
    // the rectangle is columns 1..3 and rows 0..3
    for y in 0..4u32 {
        for x in 0..5u32 {
            let got = r.pixels[(y * 5 + x) as usize];
            if (1..3).contains(&x) && y < 3 {
                assert_eq!(got, fg.pixels[(y * 2 + (x - 1)) as usize]);
            } else {
                assert_eq!(got, [9, 9, 9]);
            }
        }
    }
}

#[test]
fn overlay_odd_margins() {
    let bg = solid(6, 6, [1, 2, 3]);
    let fg = solid(3, 3, [200, 100, 50]);
    let r = overlay(&bg, &fg);
    let inside = r.pixels.iter().filter(|p| **p == [200, 100, 50]).count();
    assert_eq!(inside, 9);
    assert_eq!(r.pixels[(1 * 6 + 1) as usize], [200, 100, 50]);
    assert_eq!(r.pixels[(3 * 6 + 3) as usize], [200, 100, 50]);
    assert_eq!(r.pixels[(4 * 6 + 4) as usize], [1, 2, 3]);
    assert_eq!(r.pixels[0], [1, 2, 3]);
}

#[test]
fn blur_is_deterministic() {
    let img = pattern(20, 20);
    let a = blur(&img, 5);
    let b = blur(&img, 5);
    assert_eq!(a.pixels, b.pixels);
    assert_eq!((a.width, a.height), (20, 20));
}

#[test]
fn blur_radius_zero_is_identity() {
    let img = pattern(8, 8);
    assert_eq!(blur(&img, 0).pixels, img.pixels);
}

#[test]
fn blur_changes_pixels() {
    let img = spot(9);
    let r = blur(&img, 2);
    assert_ne!(r.pixels, img.pixels);
    assert_eq!(r.pixels.len(), 81);
}

#[test]
fn blur_spreads_with_intensity() {
    let img = spot(41);
    let one = lit(&blur(&img, 1));
    let two = lit(&blur(&img, 2));
    let three = lit(&blur(&img, 3));
    assert!(1 < one);
    assert!(one < two);
    assert!(two < three);
}

#[test]
fn blur_keeps_uniform_image() {
    let img = solid(12, 12, [40, 80, 120]);
    assert_eq!(blur(&img, 4).pixels, img.pixels);
}

#[test]
fn upscale_sets_dimensions() {
    let img = pattern(2, 3);
    let r = upscale(&img, 4, 6);
    assert_eq!((r.width, r.height), (4, 6));
    assert_eq!(r.pixels.len(), 24);
}

#[test]
fn upscale_same_size_is_copy() {
    let img = pattern(5, 4);
    assert_eq!(upscale(&img, 5, 4).pixels, img.pixels);
}

#[test]
fn upscale_uniform_stays_uniform() {
    let img = solid(3, 2, [10, 20, 30]);
    let r = upscale(&img, 6, 4);
    assert!(r.pixels.iter().all(|p| *p == [10, 20, 30]));
}

#[test]
fn frame_tall_source() {
    let src = pattern(100, 200);
    assert!(can_frame(100, 200));
    let r = frame_square(&src, BACKGROUND_BLUR_RADIUS);
    assert_eq!((r.width, r.height), (200, 200));
    for y in 0..200u32 {
        for x in 0..200u32 {
            let got = r.pixels[(y * 200 + x) as usize];
            if (50..150).contains(&x) {
                assert_eq!(got, src.pixels[(y * 100 + (x - 50)) as usize]);
            }
        }
    }
}

#[test]
fn frame_background_is_blurred_crop() {
    let src = pattern(100, 200);
    let r = frame_square(&src, BACKGROUND_BLUR_RADIUS);
    let resized = upscale(&src, 200, 400);
    let square = square_frame::crop::crop_square(&resized, 0, 100, 200);
    let bg = blur(&square, BACKGROUND_BLUR_RADIUS);
    for y in 0..200u32 {
        for x in (0..50u32).chain(150..200) {
            let k = (y * 200 + x) as usize;
            assert_eq!(r.pixels[k], bg.pixels[k]);
        }
    }
}

#[test]
fn frame_square_source_is_unchanged() {
    let src = pattern(50, 50);
    let r = frame_square(&src, BACKGROUND_BLUR_RADIUS);
    assert_eq!((r.width, r.height), (50, 50));
    assert_eq!(r.pixels, src.pixels);
}

#[test]
fn frame_wide_odd_source() {
    let src = pattern(7, 3);
    let r = frame_square(&src, 2);
    assert_eq!((r.width, r.height), (7, 7));
    for y in 2..5u32 {
        for x in 0..7u32 {
            assert_eq!(r.pixels[(y * 7 + x) as usize], src.pixels[((y - 2) * 7 + x) as usize]);
        }
    }
}

#[test]
fn frame_refuses_oversized_scale() {
    assert!(!can_frame(1, 70000));
    assert!(can_frame(640, 480));
}

#[test]
fn frame_refuses_inexact_resample_size() {
    assert!(can_frame(1, 2896));
    assert!(!can_frame(1, 2897));
    assert!(!can_frame(8_388_608, 8_388_608));
}

#[test]
fn frame_background_is_square() {
    let src = pattern(30, 12);
    let bg = square_frame::pipeline::frame_background(&src, 3);
    assert_eq!((bg.width, bg.height), (30, 30));
    let r = frame_square(&src, 3);
    for y in 0..30u32 {
        for x in 0..30u32 {
            let k = (y * 30 + x) as usize;
            if (9..21).contains(&y) {
                assert_eq!(r.pixels[k], src.pixels[((y - 9) * 30 + x) as usize]);
            } else {
                assert_eq!(r.pixels[k], bg.pixels[k]);
            }
        }
    }
}
