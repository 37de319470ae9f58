//! Crop rectangle resolution and in-place image cropping.

use vstd::prelude::*;

use crate::types::{CropMode, CropRect, ErrorInfo, ImageBuffer, ImageModel, Pad, Rect, WindowInfo};

verus! {

/// `v` clamped into the `i32` range.
pub open spec fn clamp_i32(v: int) -> i32 {
    if v < i32::MIN {
        i32::MIN
    } else if v > i32::MAX {
        i32::MAX
    } else {
        v as i32
    }
}

pub open spec fn max_i32(a: i32, b: i32) -> i32 {
    if a >= b {
        a
    } else {
        b
    }
}

pub open spec fn min_i32(a: i32, b: i32) -> i32 {
    if a <= b {
        a
    } else {
        b
    }
}

/// Component-wise intersection of two rectangles (may be empty/invalid).
pub open spec fn intersect_spec(a: Rect, b: Rect) -> Rect {
    Rect {
        left: max_i32(a.left, b.left),
        top: max_i32(a.top, b.top),
        right: min_i32(a.right, b.right),
        bottom: min_i32(a.bottom, b.bottom),
    }
}

/// `base` grown by `pad` on each side, saturating at the `i32` range.
pub open spec fn pad_rect_spec(base: Rect, pad: Pad) -> Rect {
    Rect {
        left: clamp_i32(base.left - pad.l),
        top: clamp_i32(base.top - pad.t),
        right: clamp_i32(base.right + pad.r),
        bottom: clamp_i32(base.bottom + pad.b),
    }
}

/// Whether `mode` takes its base rectangle from the target window.
pub open spec fn mode_needs_window(mode: CropMode) -> bool {
    mode == CropMode::Window || mode == CropMode::Client || mode == CropMode::DwmFrame
}

/// The base rectangle chosen by `mode`, when the inputs it needs are present.
pub open spec fn crop_base_spec(
    mode: CropMode,
    manual: Option<CropRect>,
    window: Option<WindowInfo>,
    capture: Rect,
) -> Option<Rect> {
    match mode {
        CropMode::NoCrop => Some(capture),
        CropMode::Window => match window {
            Some(w) => Some(w.rect),
            None => None,
        },
        CropMode::Client => match window {
            Some(w) => Some(w.client_rect_screen),
            None => None,
        },
        CropMode::DwmFrame => match window {
            Some(w) => Some(w.dwm_frame_rect),
            None => None,
        },
        CropMode::Manual => match manual {
            Some(m) => Some(
                Rect {
                    left: m.x,
                    top: m.y,
                    right: clamp_i32(m.x + m.w),
                    bottom: clamp_i32(m.y + m.h),
                },
            ),
            None => None,
        },
    }
}

/// The crop rectangle before the emptiness check: base, padded, clipped to
/// the capture rectangle.
pub open spec fn clipped_crop_spec(base: Rect, capture: Rect, pad: Pad) -> Rect {
    intersect_spec(pad_rect_spec(base, pad), capture)
}

/// Message reported when `mode` needs a window target but none is present.
pub open spec fn missing_window_message(mode: CropMode) -> Seq<char> {
    match mode {
        CropMode::Window => "crop window requested but no window target"@,
        CropMode::Client => "crop client requested but no window target"@,
        _ => "crop dwm-frame requested but no window target"@,
    }
}

fn sat_add(a: i32, b: i32) -> (r: i32)
    ensures
        r == clamp_i32(a + b),
{
    let s: i64 = a as i64 + b as i64;
    if s < i32::MIN as i64 {
        i32::MIN
    } else if s > i32::MAX as i64 {
        i32::MAX
    } else {
        s as i32
    }
}

fn sat_sub(a: i32, b: i32) -> (r: i32)
    ensures
        r == clamp_i32(a - b),
{
    let s: i64 = a as i64 - b as i64;
    if s < i32::MIN as i64 {
        i32::MIN
    } else if s > i32::MAX as i64 {
        i32::MAX
    } else {
        s as i32
    }
}

/// The overlap of two rectangles (empty overlaps come out invalid).
pub fn intersect(a: Rect, b: Rect) -> (r: Rect)
    ensures
        r == intersect_spec(a, b),
{
    Rect {
        left: if a.left >= b.left {
            a.left
        } else {
            b.left
        },
        top: if a.top >= b.top {
            a.top
        } else {
            b.top
        },
        right: if a.right <= b.right {
            a.right
        } else {
            b.right
        },
        bottom: if a.bottom <= b.bottom {
            a.bottom
        } else {
            b.bottom
        },
    }
}

/// The crop rectangle that `resolve_crop_rect_screen` yields, or `None`
/// when it fails.
pub open spec fn resolved_crop_spec(
    mode: CropMode,
    manual: Option<CropRect>,
    window: Option<WindowInfo>,
    capture: Rect,
    pad: Pad,
) -> Option<Rect> {
    match crop_base_spec(mode, manual, window, capture) {
        Some(base) => {
            let c = clipped_crop_spec(base, capture, pad);
            if c.spec_is_valid() {
                Some(c)
            } else {
                None
            }
        },
        None => None,
    }
}

/// The message of the error `resolve_crop_rect_screen` reports when it
/// fails.
pub open spec fn resolve_crop_message(
    mode: CropMode,
    manual: Option<CropRect>,
    window: Option<WindowInfo>,
) -> Seq<char> {
    if mode_needs_window(mode) && window is None {
        missing_window_message(mode)
    } else if mode == CropMode::Manual && manual is None {
        "manual crop missing rect"@
    } else {
        "crop rect is empty after intersection"@
    }
}


/// Resolves the crop rect in screen coordinates: pick the base rect by mode
/// (capture rect / window rect / client rect / dwm frame / manual), expand by
/// pad, then clip to `capture_screen_rect`. Errors if the mode needs a window
/// that is absent, a manual crop has no rect, or the clipped rect is empty.
pub fn resolve_crop_rect_screen(
    mode: CropMode,
    manual: Option<CropRect>,
    window: Option<&WindowInfo>,
    capture_screen_rect: Rect,
    pad: Pad,
) -> (res: Result<Rect, ErrorInfo>)
    ensures
        mode_needs_window(mode) && window is None ==> (res matches Err(e) && e.message@
            == missing_window_message(mode) && e.where_@ == "ResolveCropRectScreen"@),
        mode == CropMode::Manual && manual is None ==> (res matches Err(e) && e.message@
            == "manual crop missing rect"@ && e.where_@ == "ResolveCropRectScreen"@),
        ({
            let w = match window {
                Some(w) => Some(*w),
                None => None,
            };
            crop_base_spec(mode, manual, w, capture_screen_rect) matches Some(base) ==> {
                let c = clipped_crop_spec(base, capture_screen_rect, pad);
                if c.spec_is_valid() {
                    res == Ok::<Rect, ErrorInfo>(c)
                } else {
                    res matches Err(e) && e.message@ == "crop rect is empty after intersection"@
                        && e.where_@ == "ResolveCropRectScreen"@
                }
            }
        }),
        ({
            let w = match window {
                Some(w) => Some(*w),
                None => None,
            };
            match resolved_crop_spec(mode, manual, w, capture_screen_rect, pad) {
                Some(c) => res == Ok::<Rect, ErrorInfo>(c),
                None => res matches Err(e) && e.message@ == resolve_crop_message(mode, manual, w)
                    && e.where_@ == "ResolveCropRectScreen"@ && e.hresult is None
                    && e.win32_error is None,
            }
        }),
{
    let mut base = match mode {
        CropMode::NoCrop => capture_screen_rect,
        CropMode::Window => match window {
            Some(w) => w.rect,
            None => {
                return Err(
                    ErrorInfo::new(
                        "crop window requested but no window target",
                        "ResolveCropRectScreen",
                    ),
                );
            },
        },
        CropMode::Client => match window {
            Some(w) => w.client_rect_screen,
            None => {
                return Err(
                    ErrorInfo::new(
                        "crop client requested but no window target",
                        "ResolveCropRectScreen",
                    ),
                );
            },
        },
        CropMode::DwmFrame => match window {
            Some(w) => w.dwm_frame_rect,
            None => {
                return Err(
                    ErrorInfo::new(
                        "crop dwm-frame requested but no window target",
                        "ResolveCropRectScreen",
                    ),
                );
            },
        },
        CropMode::Manual => match manual {
            Some(m) => Rect {
                left: m.x,
                top: m.y,
                right: sat_add(m.x, m.w),
                bottom: sat_add(m.y, m.h),
            },
            None => {
                return Err(ErrorInfo::new("manual crop missing rect", "ResolveCropRectScreen"));
            },
        },
    };

    base.left = sat_sub(base.left, pad.l);
    base.top = sat_sub(base.top, pad.t);
    base.right = sat_add(base.right, pad.r);
    base.bottom = sat_add(base.bottom, pad.b);

    let clipped = intersect(base, capture_screen_rect);
    if !clipped.is_valid() {
        return Err(ErrorInfo::new("crop rect is empty after intersection", "ResolveCropRectScreen"));
    }
    Ok(clipped)
}

/// Rows `0..n` of the `nw4`-byte wide window starting at byte column `x4`
/// and row `y0` of `bytes` (row stride `pitch`), concatenated.
pub open spec fn crop_rows(bytes: Seq<u8>, pitch: int, x4: int, y0: int, nw4: int, n: nat) -> Seq<
    u8,
>
    decreases n,
{
    if n == 0 {
        Seq::empty()
    } else {
        let r = n - 1;
        let start = (y0 + r) * pitch + x4;
        crop_rows(bytes, pitch, x4, y0, nw4, (n - 1) as nat) + bytes.subrange(start, start + nw4)
    }
}

/// Outcome of cropping image `m` to `crop` (`None` when they do not overlap).
pub open spec fn crop_spec(crop: Rect, m: ImageModel) -> Option<ImageModel> {
    let img_rect = m.screen_rect();
    let c = intersect_spec(crop, img_rect);
    if !c.spec_is_valid() {
        None
    } else if c == img_rect && m.tightly_packed() {
        Some(m)
    } else {
        let nw = c.spec_width();
        let nh = c.spec_height();
        Some(
            ImageModel {
                width: nw as i32,
                height: nh as i32,
                row_pitch: (nw * 4) as i32,
                origin_x: c.left,
                origin_y: c.top,
                bytes: crop_rows(
                    m.bytes,
                    m.row_pitch as int,
                    (c.left - m.origin_x) * 4,
                    c.top - m.origin_y,
                    nw * 4,
                    nh as nat,
                ),
            },
        )
    }
}

/// Every row of the window lies inside `bytes`.
pub open spec fn rows_in_bounds(bytes: Seq<u8>, pitch: int, x4: int, y0: int, nw4: int, n: nat) -> bool {
    forall|r: int|
        0 <= r < n ==> 0 <= #[trigger] ((y0 + r) * pitch) + x4 && (y0 + r) * pitch + x4 + nw4
            <= bytes.len()
}

proof fn lemma_crop_rows_len(bytes: Seq<u8>, pitch: int, x4: int, y0: int, nw4: int, n: nat)
    requires
        0 <= nw4,
        rows_in_bounds(bytes, pitch, x4, y0, nw4, n),
    ensures
        crop_rows(bytes, pitch, x4, y0, nw4, n).len() == n * nw4,
    decreases n,
{
    if n > 0 {
        lemma_crop_rows_len(bytes, pitch, x4, y0, nw4, (n - 1) as nat);
        let r = n - 1;
        let start = (y0 + r) * pitch + x4;
        assert(0 <= start && start + nw4 <= bytes.len());
        assert(bytes.subrange(start, start + nw4).len() == nw4);
        assert(crop_rows(bytes, pitch, x4, y0, nw4, n) == crop_rows(bytes, pitch, x4, y0, nw4, (n - 1) as nat) + bytes.subrange(start, start + nw4));
        assert((n - 1) * nw4 + nw4 == n * nw4) by (nonlinear_arith);
    } else {
        assert(n * nw4 == 0) by (nonlinear_arith) requires n == 0;
    }
}

/// Byte `x` of row `y` of a cropped image is byte `x4 + x` of source row
/// `y0 + y`.
proof fn lemma_crop_rows_index(
    bytes: Seq<u8>,
    pitch: int,
    x4: int,
    y0: int,
    nw4: int,
    n: nat,
    y: int,
    x: int,
)
    requires
        0 <= nw4,
        0 <= y < n,
        0 <= x < nw4,
        rows_in_bounds(bytes, pitch, x4, y0, nw4, n),
    ensures
        crop_rows(bytes, pitch, x4, y0, nw4, n)[y * nw4 + x] == bytes[(y0 + y) * pitch + x4 + x],
    decreases n,
{
    lemma_crop_rows_len(bytes, pitch, x4, y0, nw4, (n - 1) as nat);
    let r = n - 1;
    assert(0 <= (y0 + r) * pitch + x4);
    assert((n - 1) * nw4 == y * nw4 + (n - 1 - y) * nw4) by (nonlinear_arith);
    if y < n - 1 {
        assert(y * nw4 + x < (n - 1) * nw4) by (nonlinear_arith)
            requires
                0 <= y < n - 1,
                0 <= x < nw4,
        ;
        lemma_crop_rows_index(bytes, pitch, x4, y0, nw4, (n - 1) as nat, y, x);
    }
}

/// Crops `img` in place to the intersection of `crop_screen_rect` and the
/// image's own screen rect. Errors if they do not overlap. A crop covering
/// the whole of a tightly packed image leaves it untouched; any other crop
/// repacks the selected pixels with `row_pitch == width * 4`.
pub fn crop_image_in_place(crop_screen_rect: Rect, img: &mut ImageBuffer) -> (res: Result<
    (),
    ErrorInfo,
>)
    requires
        old(img)@.well_formed(),
    ensures
        crop_spec(crop_screen_rect, old(img)@) is None <==> res is Err,
        res matches Err(e) ==> (e.message@ == "crop does not overlap image"@ && e.where_@
            == "CropImageInPlace"@ && final(img)@ == old(img)@),
        res is Ok ==> final(img)@ == crop_spec(crop_screen_rect, old(img)@).unwrap(),
        final(img)@.well_formed(),
{
    let ghost m = img@;
    let img_rect = Rect {
        left: img.origin_x,
        top: img.origin_y,
        right: img.origin_x + img.width,
        bottom: img.origin_y + img.height,
    };
    let c = intersect(crop_screen_rect, img_rect);
    if !c.is_valid() {
        return Err(ErrorInfo::new("crop does not overlap image", "CropImageInPlace"));
    }
    if c == img_rect && img.row_pitch == img.width * 4 {
        return Ok(());
    }
    let x0 = (c.left - img.origin_x) as usize;
    let y0 = (c.top - img.origin_y) as usize;
    let nw = c.right - c.left;
    let nh = c.bottom - c.top;
    let nw4 = (nw as usize) * 4;
    let pitch = img.row_pitch as usize;

    proof {
        assert(x0 + nw <= m.width);
        assert(y0 + nh <= m.height);
        assert((y0 + nh - 1) * pitch + x0 * 4 + nw4 <= (m.height - 1) * pitch + m.width * 4)
            by (nonlinear_arith)
            requires
                0 <= y0,
                0 <= x0,
                1 <= nh,
                y0 + nh <= m.height,
                x0 + nw <= m.width,
                nw4 == nw * 4,
                m.width * 4 <= pitch,
        ;
    }

    proof {
        assert forall|r: int| 0 <= r < nh implies 0 <= #[trigger] ((y0 + r) * pitch) + x0 * 4 && (y0
            + r) * pitch + x0 * 4 + nw4 <= m.bytes.len() by {
            assert(0 <= (y0 + r) * pitch) by (nonlinear_arith)
                requires
                    0 <= r,
                    0 <= pitch,
            ;
            assert((y0 + r) * pitch <= (y0 + nh - 1) * pitch) by (nonlinear_arith)
                requires
                    r <= nh - 1,
                    0 <= pitch,
            ;
        }
        assert(rows_in_bounds(m.bytes, pitch as int, (x0 * 4) as int, y0 as int, nw4 as int, nh as nat));
    }
    assert(m.bytes.len() == img.bgra.len());
    let mut out: Vec<u8> = Vec::new();
    let mut y: usize = 0;
    while y < nh as usize
        invariant
            m == img@,
            m.well_formed(),
            pitch == m.row_pitch,
            nw4 == nw * 4,
            1 <= nw,
            1 <= nh,
            (y0 + nh - 1) * pitch + x0 * 4 + nw4 <= m.bytes.len(),
            m.bytes.len() <= usize::MAX,
            y0 + nh <= m.height,
            rows_in_bounds(m.bytes, pitch as int, (x0 * 4) as int, y0 as int, nw4 as int, nh as nat),
            y <= nh,
            out@ == crop_rows(m.bytes, pitch as int, (x0 * 4) as int, y0 as int, nw4 as int, y as nat),
        decreases nh - y,
    {
        proof {
            assert((y0 + y) * pitch + x0 * 4 + nw4 <= (y0 + nh - 1) * pitch + x0 * 4 + nw4)
                by (nonlinear_arith)
                requires
                    y < nh,
                    0 <= pitch,
            ;
            assert(0 <= (y0 + y) * pitch) by (nonlinear_arith)
                requires
                    0 <= y0 + y,
                    0 <= pitch,
            ;
        }
        assert(0 <= ((y0 + y) * pitch) + x0 * 4 && (y0 + y) * pitch + x0 * 4 + nw4 <= m.bytes.len());
        let src_start = (y0 + y) * pitch + x0 * 4;
        let ghost before = out@;
        let mut k: usize = 0;
        while k < nw4
            invariant
                m == img@,
                src_start + nw4 <= m.bytes.len(),
                m.bytes.len() <= usize::MAX,
                k <= nw4,
                out@ == before + m.bytes.subrange(src_start as int, src_start + k),
            decreases nw4 - k,
        {
            out.push(img.bgra[src_start + k]);
            proof {
                assert(m.bytes.subrange(src_start as int, src_start + k + 1) == m.bytes.subrange(
                    src_start as int,
                    src_start + k,
                ).push(m.bytes[src_start + k]));
            }
            k = k + 1;
        }
        y = y + 1;
    }

    img.width = nw;
    img.height = nh;
    img.row_pitch = nw * 4;
    img.origin_x = c.left;
    img.origin_y = c.top;
    img.bgra = out;
    proof {
        lemma_crop_rows_len(m.bytes, pitch as int, (x0 * 4) as int, y0 as int, nw4 as int, nh as nat);
        assert((nh - 1) * (nw * 4) + nw * 4 == nh * (nw * 4)) by (nonlinear_arith);
    }
    Ok(())
}

/// A resolved crop rectangle always lies inside the capture rectangle and
/// is non-empty.
pub proof fn law_resolved_crop_within_capture(
    mode: CropMode,
    manual: Option<CropRect>,
    window: Option<WindowInfo>,
    capture: Rect,
    pad: Pad,
)
    requires
        crop_base_spec(mode, manual, window, capture) is Some,
        clipped_crop_spec(crop_base_spec(mode, manual, window, capture).unwrap(), capture, pad).spec_is_valid(),
    ensures
        ({
            let c = clipped_crop_spec(crop_base_spec(mode, manual, window, capture).unwrap(), capture, pad);
            capture.contains_rect(c) && c.spec_is_valid()
        }),
{
}

/// With no crop mode and non-negative padding the crop is the whole (valid)
/// capture rectangle: padding cannot grow the crop past the capture.
pub proof fn law_no_crop_keeps_capture(capture: Rect, pad: Pad, window: Option<WindowInfo>, manual: Option<CropRect>)
    requires
        capture.spec_is_valid(),
        pad.l >= 0 && pad.t >= 0 && pad.r >= 0 && pad.b >= 0,
    ensures
        crop_base_spec(CropMode::NoCrop, manual, window, capture) == Some(capture),
        clipped_crop_spec(capture, capture, pad) == capture,
{
}

/// A successful crop yields a tightly packed image covering exactly the
/// overlap of the crop and the source image, whose every pixel is the source
/// pixel at the same screen position.
pub proof fn law_crop_preserves_pixels(crop: Rect, m: ImageModel)
    requires
        m.well_formed(),
        crop_spec(crop, m) is Some,
    ensures
        ({
            let n = crop_spec(crop, m).unwrap();
            &&& n.well_formed()
            &&& n.tightly_packed()
            &&& n.screen_rect() == intersect_spec(crop, m.screen_rect())
            &&& forall|x: int, y: int, ch: int|
                0 <= x < n.width && 0 <= y < n.height && 0 <= ch < 4 ==> #[trigger] n.bytes[n.offset(x, y, ch)]
                    == m.bytes[m.offset(x + (n.origin_x - m.origin_x), y + (n.origin_y - m.origin_y), ch)]
        }),
{
    let n = crop_spec(crop, m).unwrap();
    let img_rect = m.screen_rect();
    let c = intersect_spec(crop, img_rect);
    if !(c == img_rect && m.tightly_packed()) {
        let nw = c.spec_width();
        let nh = c.spec_height();
        let x0 = c.left - m.origin_x;
        let y0 = c.top - m.origin_y;
        let pitch = m.row_pitch as int;
        assert(y0 + nh <= m.height && x0 + nw <= m.width);
        assert forall|r: int| 0 <= r < nh implies 0 <= #[trigger] ((y0 + r) * pitch) + x0 * 4 && (y0
            + r) * pitch + x0 * 4 + nw * 4 <= m.bytes.len() by {
            assert(0 <= (y0 + r) * pitch) by (nonlinear_arith)
                requires
                    0 <= y0 + r,
                    0 <= pitch,
            ;
            assert((y0 + r) * pitch <= (m.height - 1) * pitch) by (nonlinear_arith)
                requires
                    y0 + r <= m.height - 1,
                    0 <= pitch,
            ;
        }
        lemma_crop_rows_len(m.bytes, pitch, x0 * 4, y0, nw * 4, nh as nat);
        assert(n.well_formed()) by {
            assert((nh - 1) * (nw * 4) + nw * 4 == nh * (nw * 4)) by (nonlinear_arith);
        }
        assert forall|x: int, y: int, ch: int|
            0 <= x < n.width && 0 <= y < n.height && 0 <= ch < 4 implies #[trigger] n.bytes[n.offset(x, y, ch)]
                == m.bytes[m.offset(x + (n.origin_x - m.origin_x), y + (n.origin_y - m.origin_y), ch)] by {
            lemma_crop_rows_index(m.bytes, pitch, x0 * 4, y0, nw * 4, nh as nat, y, x * 4 + ch);
            assert(n.offset(x, y, ch) == y * (nw * 4) + (x * 4 + ch));
            assert(m.offset(x + x0, y + y0, ch) == (y + y0) * pitch + (x + x0) * 4 + ch);
            assert((y + y0) * pitch + (x + x0) * 4 + ch == (y0 + y) * pitch + x0 * 4 + (x * 4 + ch))
                by (nonlinear_arith);
        }
    }
}

/// Cropping an already cropped image to the same rectangle changes nothing.
pub proof fn law_crop_idempotent(crop: Rect, m: ImageModel)
    requires
        m.well_formed(),
        crop_spec(crop, m) is Some,
    ensures
        crop_spec(crop, crop_spec(crop, m).unwrap()) == crop_spec(crop, m),
{
    law_crop_preserves_pixels(crop, m);
}

} // verus!
