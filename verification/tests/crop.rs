use screencap::crop::{crop_image_in_place, intersect, resolve_crop_rect_screen};
use screencap::types::{CropMode, CropRect, ImageBuffer, Pad, Rect, WindowInfo};

fn rect(left: i32, top: i32, right: i32, bottom: i32) -> Rect {
    Rect {
        left,
        top,
        right,
        bottom,
    }
}

fn window_with_rects(rect: Rect, client: Rect, dwm: Rect) -> WindowInfo {
    WindowInfo {
        hwnd: 1,
        pid: 2,
        title: String::new(),
        class_name: String::new(),
        rect,
        client_rect_screen: client,
        dwm_frame_rect: dwm,
        visible: true,
        iconic: false,
        cloaked: false,
    }
}

/// Tightly packed BGRA buffer whose pixels encode their own coordinates:
/// [b=x, g=y, r=0, a=255].
fn coord_buffer(width: i32, height: i32, origin_x: i32, origin_y: i32) -> ImageBuffer {
    let mut bgra = Vec::with_capacity((width * height * 4) as usize);
    for y in 0..height {
        for x in 0..width {
            bgra.extend_from_slice(&[x as u8, y as u8, 0, 255]);
        }
    }
    ImageBuffer {
        width,
        height,
        row_pitch: width * 4,
        origin_x,
        origin_y,
        bgra,
    }
}

#[test]
fn resolve_none_returns_capture_rect() {
    let cap = rect(0, 0, 100, 80);
    let out = resolve_crop_rect_screen(CropMode::NoCrop, None, None, cap, Pad::default()).unwrap();
    assert_eq!(out, cap);
}

#[test]
fn resolve_none_pad_cannot_exceed_capture_rect() {
    let cap = rect(0, 0, 100, 80);
    let pad = Pad {
        l: 10,
        t: 10,
        r: 10,
        b: 10,
    };
    let out = resolve_crop_rect_screen(CropMode::NoCrop, None, None, cap, pad).unwrap();
    assert_eq!(out, cap);
}

#[test]
fn resolve_window_mode_clips_to_capture() {
    let cap = rect(0, 0, 100, 80);
    let win = window_with_rects(rect(-20, -10, 50, 40), Rect::default(), Rect::default());
    let out =
        resolve_crop_rect_screen(CropMode::Window, None, Some(&win), cap, Pad::default()).unwrap();
    assert_eq!(out, rect(0, 0, 50, 40));
}

#[test]
fn resolve_window_mode_requires_window() {
    let cap = rect(0, 0, 100, 80);
    let err =
        resolve_crop_rect_screen(CropMode::Window, None, None, cap, Pad::default()).unwrap_err();
    assert_eq!(err.where_, "ResolveCropRectScreen");
    assert!(err.message.contains("window"));
}

#[test]
fn resolve_client_mode_uses_client_rect() {
    let cap = rect(0, 0, 100, 80);
    let win = window_with_rects(rect(0, 0, 100, 80), rect(10, 10, 60, 50), Rect::default());
    let out =
        resolve_crop_rect_screen(CropMode::Client, None, Some(&win), cap, Pad::default()).unwrap();
    assert_eq!(out, rect(10, 10, 60, 50));
}

#[test]
fn resolve_dwm_frame_mode_uses_dwm_rect() {
    let cap = rect(0, 0, 100, 80);
    let win = window_with_rects(rect(0, 0, 100, 80), Rect::default(), rect(5, 6, 40, 45));
    let out = resolve_crop_rect_screen(CropMode::DwmFrame, None, Some(&win), cap, Pad::default())
        .unwrap();
    assert_eq!(out, rect(5, 6, 40, 45));
}

#[test]
fn resolve_manual_mode_builds_rect_from_xywh() {
    let cap = rect(0, 0, 100, 80);
    let manual = CropRect {
        x: 10,
        y: 20,
        w: 30,
        h: 15,
    };
    let out = resolve_crop_rect_screen(CropMode::Manual, Some(manual), None, cap, Pad::default())
        .unwrap();
    assert_eq!(out, rect(10, 20, 40, 35));
}

#[test]
fn resolve_manual_mode_requires_rect() {
    let cap = rect(0, 0, 100, 80);
    let err =
        resolve_crop_rect_screen(CropMode::Manual, None, None, cap, Pad::default()).unwrap_err();
    assert!(err.message.contains("manual"));
}

#[test]
fn resolve_pad_expands_within_capture() {
    let cap = rect(0, 0, 100, 80);
    let win = window_with_rects(rect(30, 30, 50, 50), Rect::default(), Rect::default());
    let pad = Pad {
        l: 5,
        t: 4,
        r: 3,
        b: 2,
    };
    let out = resolve_crop_rect_screen(CropMode::Window, None, Some(&win), cap, pad).unwrap();
    assert_eq!(out, rect(25, 26, 53, 52));
}

#[test]
fn resolve_errors_when_clip_is_empty() {
    let cap = rect(0, 0, 100, 80);
    let win = window_with_rects(rect(200, 200, 300, 300), Rect::default(), Rect::default());
    let err = resolve_crop_rect_screen(CropMode::Window, None, Some(&win), cap, Pad::default())
        .unwrap_err();
    assert!(err.message.contains("empty"));
}

#[test]
fn crop_in_place_extracts_subregion() {
    let mut img = coord_buffer(4, 3, 0, 0);
    crop_image_in_place(rect(1, 1, 3, 3), &mut img).unwrap();

    assert_eq!(img.width, 2);
    assert_eq!(img.height, 2);
    assert_eq!(img.row_pitch, 8);
    assert_eq!(img.origin_x, 1);
    assert_eq!(img.origin_y, 1);
    assert_eq!(
        img.bgra,
        vec![1, 1, 0, 255, 2, 1, 0, 255, 1, 2, 0, 255, 2, 2, 0, 255]
    );
}

#[test]
fn crop_in_place_respects_nonzero_origin() {
    let mut img = coord_buffer(4, 3, 10, 10);
    crop_image_in_place(rect(11, 10, 13, 12), &mut img).unwrap();
    assert_eq!(img.origin_x, 11);
    assert_eq!(img.origin_y, 10);
    assert_eq!(img.width, 2);
    assert_eq!(img.height, 2);
    assert_eq!(
        img.bgra,
        vec![1, 0, 0, 255, 2, 0, 0, 255, 1, 1, 0, 255, 2, 1, 0, 255]
    );
}

#[test]
fn crop_in_place_full_rect_tightly_packed_is_noop() {
    let mut img = coord_buffer(4, 3, 0, 0);
    let original = img.bgra.clone();
    crop_image_in_place(rect(0, 0, 4, 3), &mut img).unwrap();
    assert_eq!(img.bgra, original);
    assert_eq!(img.row_pitch, 16);
}

#[test]
fn crop_in_place_full_rect_padded_pitch_repacks() {
    let width = 2;
    let height = 2;
    let row_pitch = width * 4 + 8;
    let mut bgra = Vec::new();
    for y in 0..height {
        for x in 0..width {
            bgra.extend_from_slice(&[x as u8, y as u8, 0, 255]);
        }
        bgra.extend_from_slice(&[0xFF; 8]);
    }
    let mut img = ImageBuffer {
        width,
        height,
        row_pitch,
        origin_x: 0,
        origin_y: 0,
        bgra,
    };
    crop_image_in_place(rect(0, 0, 2, 2), &mut img).unwrap();
    assert_eq!(img.row_pitch, 8);
    assert_eq!(
        img.bgra,
        vec![0, 0, 0, 255, 1, 0, 0, 255, 0, 1, 0, 255, 1, 1, 0, 255]
    );
}

#[test]
fn crop_in_place_no_overlap_errors() {
    let mut img = coord_buffer(4, 3, 0, 0);
    let err = crop_image_in_place(rect(100, 100, 110, 110), &mut img).unwrap_err();
    assert_eq!(err.where_, "CropImageInPlace");
}

#[test]
fn crop_then_crop_again_is_unchanged() {
    let mut img = coord_buffer(6, 5, 3, 4);
    let c = rect(4, 5, 7, 8);
    crop_image_in_place(c, &mut img).unwrap();
    let once = img.bgra.clone();
    crop_image_in_place(c, &mut img).unwrap();
    assert_eq!(img.bgra, once);
    assert_eq!((img.origin_x, img.origin_y, img.width, img.height), (4, 5, 3, 3));
}

#[test]
fn crop_error_leaves_image_untouched() {
    let mut img = coord_buffer(4, 3, 0, 0);
    let before = img.bgra.clone();
    assert!(crop_image_in_place(rect(-10, -10, 0, 0), &mut img).is_err());
    assert_eq!(img.bgra, before);
    assert_eq!(img.width, 4);
}

#[test]
fn resolve_manual_rect_saturates_at_i32_max() {
    let cap = rect(0, 0, i32::MAX, 80);
    let manual = CropRect {
        x: i32::MAX - 5,
        y: 0,
        w: 100,
        h: 10,
    };
    let out = resolve_crop_rect_screen(CropMode::Manual, Some(manual), None, cap, Pad::default())
        .unwrap();
    assert_eq!(out, rect(i32::MAX - 5, 0, i32::MAX, 10));
}

#[test]
fn resolve_client_mode_requires_window_message() {
    let cap = rect(0, 0, 100, 80);
    let err =
        resolve_crop_rect_screen(CropMode::Client, None, None, cap, Pad::default()).unwrap_err();
    assert_eq!(err.message, "crop client requested but no window target");
    let err =
        resolve_crop_rect_screen(CropMode::DwmFrame, None, None, cap, Pad::default()).unwrap_err();
    assert_eq!(err.message, "crop dwm-frame requested but no window target");
}

#[test]
fn intersection_of_rectangles() {
    assert_eq!(intersect(rect(0, 0, 10, 10), rect(5, -5, 20, 8)), rect(5, 0, 10, 8));
    assert!(!intersect(rect(0, 0, 1, 1), rect(2, 2, 3, 3)).is_valid());
}
