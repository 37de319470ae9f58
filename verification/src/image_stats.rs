//! Pixel counts behind the image statistics: black pixels (r == g == b == 0),
//! transparent pixels (a == 0) and per-channel sums. Only the first
//! `width * 4` bytes of each row are read, so row padding is ignored.

use vstd::prelude::*;

use crate::types::{ImageBuffer, ImageModel};

verus! {

/// Raw counts over every pixel of an image; all zero for an empty image.
#[derive(Clone, Copy, Debug, PartialEq, Eq, Structural)]
pub struct ImageCounts {
    pub pixels: u64,
    pub black: u64,
    pub transparent: u64,
    pub r_sum: u64,
    pub g_sum: u64,
    pub b_sum: u64,
}

/// Black and transparent pixel counts only.
#[derive(Clone, Copy, Debug, PartialEq, Eq, Structural)]
pub struct FrameCounts {
    pub pixels: u64,
    pub black: u64,
    pub transparent: u64,
}

/// A per-pixel measure, applied to the pixel's (b, g, r, a) bytes.
pub type PixelMeasure = spec_fn(u8, u8, u8, u8) -> int;

pub open spec fn black_measure() -> PixelMeasure {
    |b: u8, g: u8, r: u8, a: u8| if r == 0 && g == 0 && b == 0 {
        1int
    } else {
        0int
    }
}

pub open spec fn transparent_measure() -> PixelMeasure {
    |b: u8, g: u8, r: u8, a: u8| if a == 0 {
        1int
    } else {
        0int
    }
}

pub open spec fn red_measure() -> PixelMeasure {
    |b: u8, g: u8, r: u8, a: u8| r as int
}

pub open spec fn green_measure() -> PixelMeasure {
    |b: u8, g: u8, r: u8, a: u8| g as int
}

pub open spec fn blue_measure() -> PixelMeasure {
    |b: u8, g: u8, r: u8, a: u8| b as int
}

/// `f` applied to pixel `(x, y)` of `m`.
pub open spec fn pixel_measure(m: ImageModel, f: PixelMeasure, x: int, y: int) -> int {
    f(
        m.bytes[m.offset(x, y, 0)],
        m.bytes[m.offset(x, y, 1)],
        m.bytes[m.offset(x, y, 2)],
        m.bytes[m.offset(x, y, 3)],
    )
}

/// Sum of `f` over the first `n` pixels of row `y`.
pub open spec fn row_sum(m: ImageModel, f: PixelMeasure, y: int, n: nat) -> int
    decreases n,
{
    if n == 0 {
        0
    } else {
        row_sum(m, f, y, (n - 1) as nat) + pixel_measure(m, f, n - 1, y)
    }
}

/// Sum of `f` over every pixel of the first `rows` rows.
pub open spec fn image_sum(m: ImageModel, f: PixelMeasure, rows: nat) -> int
    decreases rows,
{
    if rows == 0 {
        0
    } else {
        image_sum(m, f, (rows - 1) as nat) + row_sum(m, f, rows - 1, m.width as nat)
    }
}

/// The image has no pixels to measure.
pub open spec fn is_empty_image(m: ImageModel) -> bool {
    m.width <= 0 || m.height <= 0 || m.bytes.len() == 0
}

/// Every row read by the statistics lies inside the buffer, and the sums
/// fit in 64 bits.
pub open spec fn stats_readable(m: ImageModel) -> bool {
    !is_empty_image(m) ==> {
        &&& 0 <= m.row_pitch
        &&& (m.height - 1) * m.row_pitch + m.width * 4 <= m.bytes.len()
        &&& m.width * m.height * 255 <= u64::MAX
    }
}

/// Total of `f` over the whole image (zero when empty).
pub open spec fn total(m: ImageModel, f: PixelMeasure) -> int {
    if is_empty_image(m) {
        0
    } else {
        image_sum(m, f, m.height as nat)
    }
}

pub open spec fn pixel_count(m: ImageModel) -> int {
    if is_empty_image(m) {
        0
    } else {
        m.width * m.height
    }
}

proof fn lemma_row_sum_bounds(m: ImageModel, f: PixelMeasure, y: int, n: nat, hi: int)
    requires
        0 <= hi,
        forall|x: int| 0 <= x < n ==> 0 <= #[trigger] pixel_measure(m, f, x, y) <= hi,
    ensures
        0 <= row_sum(m, f, y, n) <= n * hi,
    decreases n,
{
    if n > 0 {
        lemma_row_sum_bounds(m, f, y, (n - 1) as nat, hi);
        assert(pixel_measure(m, f, n - 1, y) <= hi);
        assert((n - 1) * hi + hi == n * hi) by (nonlinear_arith);
    }
}

proof fn lemma_image_sum_bounds(m: ImageModel, f: PixelMeasure, rows: nat, hi: int)
    requires
        0 <= hi,
        0 <= m.width,
        forall|x: int, y: int|
            0 <= x < m.width && 0 <= y < rows ==> 0 <= #[trigger] pixel_measure(m, f, x, y) <= hi,
    ensures
        0 <= image_sum(m, f, rows) <= rows * m.width * hi,
    decreases rows,
{
    if rows > 0 {
        lemma_image_sum_bounds(m, f, (rows - 1) as nat, hi);
        lemma_row_sum_bounds(m, f, rows - 1, m.width as nat, hi);
        assert((rows - 1) * m.width * hi + m.width * hi == rows * m.width * hi) by (nonlinear_arith);
    }
}

/// Whether the statistics can be taken of `img` (see [`stats_readable`]).
pub fn is_measurable(img: &ImageBuffer) -> (b: bool)
    ensures
        b == stats_readable(img@),
{
    if img.width <= 0 || img.height <= 0 || img.bgra.len() == 0 {
        return true;
    }
    if img.row_pitch < 0 {
        return false;
    }
    let w = img.width as u128;
    let h = img.height as u128;
    let p = img.row_pitch as u128;
    let len = img.bgra.len() as u128;
    assert((h - 1) * p <= 0x7fff_ffffu128 * 0x7fff_ffffu128) by (nonlinear_arith)
        requires
            1 <= h <= 0x7fff_ffff,
            p <= 0x7fff_ffff,
    ;
    assert(w * h <= 0x7fff_ffffu128 * 0x7fff_ffffu128) by (nonlinear_arith)
        requires
            w <= 0x7fff_ffff,
            h <= 0x7fff_ffff,
    ;
    (h - 1) * p + w * 4 <= len && w * h * 255 <= u64::MAX as u128
}

/// Counts black and transparent pixels and sums each color channel.
pub fn compute_image_counts(img: &ImageBuffer) -> (c: ImageCounts)
    requires
        stats_readable(img@),
    ensures
        c.pixels == pixel_count(img@),
        c.black == total(img@, black_measure()),
        c.transparent == total(img@, transparent_measure()),
        c.r_sum == total(img@, red_measure()),
        c.g_sum == total(img@, green_measure()),
        c.b_sum == total(img@, blue_measure()),
{
    let ghost m = img@;
    if img.width <= 0 || img.height <= 0 || img.bgra.len() == 0 {
        return ImageCounts { pixels: 0, black: 0, transparent: 0, r_sum: 0, g_sum: 0, b_sum: 0 };
    }
    let width = img.width as usize;
    let height = img.height as usize;
    let pitch = img.row_pitch as usize;
    proof {
        assert(width * height <= u64::MAX) by (nonlinear_arith)
            requires
                width * height * 255 <= u64::MAX,
                0 <= width,
                0 <= height,
        ;
    }
    let pixels: u64 = (width as u64) * (height as u64);
    let mut black: u64 = 0;
    let mut transparent: u64 = 0;
    let mut r_sum: u64 = 0;
    let mut g_sum: u64 = 0;
    let mut b_sum: u64 = 0;
    let mut y: usize = 0;
    while y < height
        invariant
            m == img@,
            !is_empty_image(m),
            stats_readable(m),
            width == m.width,
            height == m.height,
            pitch == m.row_pitch,
            y <= height,
            black == image_sum(m, black_measure(), y as nat),
            transparent == image_sum(m, transparent_measure(), y as nat),
            r_sum == image_sum(m, red_measure(), y as nat),
            g_sum == image_sum(m, green_measure(), y as nat),
            b_sum == image_sum(m, blue_measure(), y as nat),
            r_sum <= y * width * 255,
            g_sum <= y * width * 255,
            b_sum <= y * width * 255,
            black <= y * width,
            transparent <= y * width,
        decreases height - y,
    {
        proof {
            assert(y * pitch + width * 4 <= (height - 1) * pitch + width * 4) by (nonlinear_arith)
                requires
                    y < height,
                    0 <= pitch,
            ;
            assert((y + 1) * width * 255 <= height * width * 255) by (nonlinear_arith)
                requires
                    y < height,
                    0 <= width,
            ;
            assert(height * width * 255 == width * height * 255) by (nonlinear_arith);
            assert(img.bgra.len() == m.bytes.len());
        }
        let row_start = y * pitch;
        let ghost rb = black;
        let ghost rt = transparent;
        let ghost rr = r_sum;
        let ghost rg = g_sum;
        let ghost rbl = b_sum;
        let mut x: usize = 0;
        while x < width
            invariant
                m == img@,
                width == m.width,
                pitch == m.row_pitch,
                row_start == y * pitch,
                row_start + width * 4 <= m.bytes.len(),
                m.bytes.len() <= usize::MAX,
                x <= width,
                black == rb + row_sum(m, black_measure(), y as int, x as nat),
                transparent == rt + row_sum(m, transparent_measure(), y as int, x as nat),
                r_sum == rr + row_sum(m, red_measure(), y as int, x as nat),
                g_sum == rg + row_sum(m, green_measure(), y as int, x as nat),
                b_sum == rbl + row_sum(m, blue_measure(), y as int, x as nat),
                rr <= y * width * 255,
                rg <= y * width * 255,
                rbl <= y * width * 255,
                rb <= y * width,
                rt <= y * width,
                (y + 1) * width * 255 <= u64::MAX,
            decreases width - x,
        {
            proof {
                lemma_row_sum_bounds(m, red_measure(), y as int, x as nat, 255);
                lemma_row_sum_bounds(m, green_measure(), y as int, x as nat, 255);
                lemma_row_sum_bounds(m, blue_measure(), y as int, x as nat, 255);
                lemma_row_sum_bounds(m, black_measure(), y as int, x as nat, 1);
                lemma_row_sum_bounds(m, transparent_measure(), y as int, x as nat, 1);
                assert(y * width * 255 + (x + 1) * 255 <= (y + 1) * width * 255) by (nonlinear_arith)
                    requires
                        x < width,
                ;
                assert(y * width + (x + 1) <= (y + 1) * width * 255) by (nonlinear_arith)
                    requires
                        x < width,
                ;
            }
            let p = row_start + x * 4;
            let b = img.bgra[p];
            let g = img.bgra[p + 1];
            let r = img.bgra[p + 2];
            let a = img.bgra[p + 3];
            if r == 0 && g == 0 && b == 0 {
                black = black + 1;
            }
            if a == 0 {
                transparent = transparent + 1;
            }
            r_sum = r_sum + r as u64;
            g_sum = g_sum + g as u64;
            b_sum = b_sum + b as u64;
            x = x + 1;
        }
        proof {
            lemma_row_sum_bounds(m, red_measure(), y as int, width as nat, 255);
            lemma_row_sum_bounds(m, green_measure(), y as int, width as nat, 255);
            lemma_row_sum_bounds(m, blue_measure(), y as int, width as nat, 255);
            lemma_row_sum_bounds(m, black_measure(), y as int, width as nat, 1);
            lemma_row_sum_bounds(m, transparent_measure(), y as int, width as nat, 1);
            assert(y * width * 255 + width * 255 == (y + 1) * width * 255) by (nonlinear_arith);
            assert(y * width + width == (y + 1) * width) by (nonlinear_arith);
        }
        y = y + 1;
    }
    ImageCounts { pixels, black, transparent, r_sum, g_sum, b_sum }
}

/// Counts black and transparent pixels only (the cheaper pass used to judge
/// capture frames).
pub fn compute_frame_counts(img: &ImageBuffer) -> (c: FrameCounts)
    requires
        stats_readable(img@),
    ensures
        c.pixels == pixel_count(img@),
        c.black == total(img@, black_measure()),
        c.transparent == total(img@, transparent_measure()),
{
    let ghost m = img@;
    if img.width <= 0 || img.height <= 0 || img.bgra.len() == 0 {
        return FrameCounts { pixels: 0, black: 0, transparent: 0 };
    }
    let width = img.width as usize;
    let height = img.height as usize;
    let pitch = img.row_pitch as usize;
    proof {
        assert(width * height <= u64::MAX) by (nonlinear_arith)
            requires
                width * height * 255 <= u64::MAX,
                0 <= width,
                0 <= height,
        ;
    }
    let pixels: u64 = (width as u64) * (height as u64);
    let mut black: u64 = 0;
    let mut transparent: u64 = 0;
    let mut y: usize = 0;
    while y < height
        invariant
            m == img@,
            !is_empty_image(m),
            stats_readable(m),
            width == m.width,
            height == m.height,
            pitch == m.row_pitch,
            y <= height,
            black == image_sum(m, black_measure(), y as nat),
            transparent == image_sum(m, transparent_measure(), y as nat),
            black <= y * width,
            transparent <= y * width,
            width * height <= u64::MAX,
        decreases height - y,
    {
        proof {
            assert(y * pitch + width * 4 <= (height - 1) * pitch + width * 4) by (nonlinear_arith)
                requires
                    y < height,
                    0 <= pitch,
            ;
            assert((y + 1) * width <= height * width) by (nonlinear_arith)
                requires
                    y < height,
                    0 <= width,
            ;
            assert(height * width == width * height) by (nonlinear_arith);
            assert(img.bgra.len() == m.bytes.len());
        }
        let row_start = y * pitch;
        let ghost rb = black;
        let ghost rt = transparent;
        let mut x: usize = 0;
        while x < width
            invariant
                m == img@,
                width == m.width,
                pitch == m.row_pitch,
                row_start == y * pitch,
                row_start + width * 4 <= m.bytes.len(),
                m.bytes.len() <= usize::MAX,
                x <= width,
                black == rb + row_sum(m, black_measure(), y as int, x as nat),
                transparent == rt + row_sum(m, transparent_measure(), y as int, x as nat),
                rb <= y * width,
                rt <= y * width,
                (y + 1) * width <= u64::MAX,
            decreases width - x,
        {
            proof {
                lemma_row_sum_bounds(m, black_measure(), y as int, x as nat, 1);
                lemma_row_sum_bounds(m, transparent_measure(), y as int, x as nat, 1);
                assert(y * width + (x + 1) <= (y + 1) * width) by (nonlinear_arith)
                    requires
                        x < width,
                ;
            }
            let p = row_start + x * 4;
            let b = img.bgra[p];
            let g = img.bgra[p + 1];
            let r = img.bgra[p + 2];
            let a = img.bgra[p + 3];
            if r == 0 && g == 0 && b == 0 {
                black = black + 1;
            }
            if a == 0 {
                transparent = transparent + 1;
            }
            x = x + 1;
        }
        proof {
            lemma_row_sum_bounds(m, black_measure(), y as int, width as nat, 1);
            lemma_row_sum_bounds(m, transparent_measure(), y as int, width as nat, 1);
            assert(y * width + width == (y + 1) * width) by (nonlinear_arith);
        }
        y = y + 1;
    }
    FrameCounts { pixels, black, transparent }
}

/// Black and transparent counts never exceed the pixel count, and a channel
/// sum never exceeds 255 per pixel, so every ratio lies in [0, 1] and the
/// average luma in [0, 255].
pub proof fn law_counts_bounded_by_pixels(m: ImageModel)
    requires
        stats_readable(m),
    ensures
        0 <= total(m, black_measure()) <= pixel_count(m),
        0 <= total(m, transparent_measure()) <= pixel_count(m),
        0 <= total(m, red_measure()) <= 255 * pixel_count(m),
{
    if !is_empty_image(m) {
        lemma_image_sum_bounds(m, black_measure(), m.height as nat, 1);
        lemma_image_sum_bounds(m, transparent_measure(), m.height as nat, 1);
        lemma_image_sum_bounds(m, red_measure(), m.height as nat, 255);
        assert(m.height * m.width * 255 == 255 * (m.width * m.height)) by (nonlinear_arith);
        assert(m.height * m.width * 1 == m.width * m.height) by (nonlinear_arith);
    }
}

} // verus!
