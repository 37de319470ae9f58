use screencap::image_stats::{compute_frame_counts, compute_image_counts, is_measurable, ImageCounts};
use screencap::types::ImageBuffer;

fn solid(width: i32, height: i32, pixel: [u8; 4]) -> ImageBuffer {
    let mut bgra = Vec::new();
    for _ in 0..(width * height) {
        bgra.extend_from_slice(&pixel);
    }
    ImageBuffer {
        width,
        height,
        row_pitch: width * 4,
        origin_x: 0,
        origin_y: 0,
        bgra,
    }
}

fn approx(a: f64, b: f64) {
    assert!((a - b).abs() < 1e-9, "expected {b}, got {a}");
}

/// Ratios and BT.709 average luma, taken from the verified counts.
fn ratios(c: &ImageCounts) -> (f64, f64, f64) {
    if c.pixels == 0 {
        return (0.0, 0.0, 0.0);
    }
    let n = c.pixels as f64;
    let luma = 0.2126 * c.r_sum as f64 + 0.7152 * c.g_sum as f64 + 0.0722 * c.b_sum as f64;
    (c.black as f64 / n, c.transparent as f64 / n, luma / n)
}

fn counts(img: &ImageBuffer) -> ImageCounts {
    assert!(is_measurable(img));
    compute_image_counts(img)
}

#[test]
fn all_black_opaque() {
    let c = counts(&solid(4, 4, [0, 0, 0, 255]));
    assert_eq!((c.pixels, c.black, c.transparent), (16, 16, 0));
    assert_eq!((c.r_sum, c.g_sum, c.b_sum), (0, 0, 0));
    let (black, transparent, luma) = ratios(&c);
    approx(black, 1.0);
    approx(transparent, 0.0);
    approx(luma, 0.0);
}

#[test]
fn all_white_opaque() {
    let c = counts(&solid(4, 4, [255, 255, 255, 255]));
    assert_eq!((c.pixels, c.black, c.transparent), (16, 0, 0));
    assert_eq!((c.r_sum, c.g_sum, c.b_sum), (16 * 255, 16 * 255, 16 * 255));
    let (black, transparent, luma) = ratios(&c);
    approx(black, 0.0);
    approx(transparent, 0.0);
    approx(luma, 255.0);
}

#[test]
fn all_transparent_black_counts_both() {
    let c = counts(&solid(2, 2, [0, 0, 0, 0]));
    assert_eq!((c.pixels, c.black, c.transparent), (4, 4, 4));
    let (black, transparent, _) = ratios(&c);
    approx(black, 1.0);
    approx(transparent, 1.0);
}

#[test]
fn half_black_half_white() {
    let mut img = solid(2, 2, [0, 0, 0, 255]);
    for i in 2..4 {
        let base = i * 4;
        img.bgra[base..base + 4].copy_from_slice(&[255, 255, 255, 255]);
    }
    let c = counts(&img);
    assert_eq!((c.pixels, c.black, c.transparent), (4, 2, 0));
    assert_eq!((c.r_sum, c.g_sum, c.b_sum), (510, 510, 510));
    let (black, transparent, luma) = ratios(&c);
    approx(black, 0.5);
    approx(transparent, 0.0);
    approx(luma, 127.5);
}

#[test]
fn luma_uses_bt709_weights() {
    // Bytes are B, G, R, A: a pure green pixel.
    let c = counts(&solid(1, 1, [0, 255, 0, 255]));
    assert_eq!((c.r_sum, c.g_sum, c.b_sum), (0, 255, 0));
    assert_eq!(c.black, 0);
    let (black, _, luma) = ratios(&c);
    approx(luma, 0.7152 * 255.0);
    approx(black, 0.0);
}

#[test]
fn empty_image_is_zeroed() {
    let img = ImageBuffer::default();
    let c = counts(&img);
    assert_eq!((c.pixels, c.black, c.transparent, c.r_sum, c.g_sum, c.b_sum), (0, 0, 0, 0, 0, 0));
    let f = compute_frame_counts(&img);
    assert_eq!((f.pixels, f.black, f.transparent), (0, 0, 0));
    assert_eq!(ratios(&c), (0.0, 0.0, 0.0));
}

#[test]
fn stats_ignore_row_pitch_padding() {
    let width = 2;
    let height = 2;
    let row_pitch = width * 4 + 8;
    let mut bgra = Vec::new();
    for _ in 0..height {
        for _ in 0..width {
            bgra.extend_from_slice(&[0, 0, 0, 255]);
        }
        // Non-black, transparent padding that must not be counted.
        bgra.extend_from_slice(&[255, 255, 255, 0]);
        bgra.extend_from_slice(&[255, 255, 255, 0]);
    }
    let img = ImageBuffer { width, height, row_pitch, origin_x: 0, origin_y: 0, bgra };
    let c = counts(&img);
    assert_eq!((c.pixels, c.black, c.transparent), (4, 4, 0));
    assert_eq!((c.r_sum, c.g_sum, c.b_sum), (0, 0, 0));
    let (black, transparent, luma) = ratios(&c);
    approx(black, 1.0);
    approx(transparent, 0.0);
    approx(luma, 0.0);
}

#[test]
fn frame_ratios_match_full_stats() {
    let mut img = solid(2, 2, [0, 0, 0, 0]);
    img.bgra[0..4].copy_from_slice(&[255, 255, 255, 255]);
    let c = counts(&img);
    let f = compute_frame_counts(&img);
    assert_eq!((f.pixels, f.black, f.transparent), (c.pixels, c.black, c.transparent));
    assert_eq!((f.pixels, f.black, f.transparent), (4, 3, 3));
    let (black, transparent, _) = ratios(&c);
    approx(black, 0.75);
    approx(transparent, 0.75);
}
