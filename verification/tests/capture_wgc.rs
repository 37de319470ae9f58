use screencap::capture_wgc::{
    frame_origin, frame_region, is_probably_usable_frame, is_wgc_window_method, plan_wgc_capture,
    CaptureItemSource, CaptureLoop, LoopAction, LoopEvent, MAX_FRAMES,
};
use screencap::types::{ErrorInfo, ImageBuffer, MonitorInfo, Rect, WindowInfo};

fn solid(width: i32, height: i32, pixel: [u8; 4]) -> ImageBuffer {
    let mut bgra = Vec::with_capacity((width * height * 4) as usize);
    for _ in 0..(width * height) {
        bgra.extend_from_slice(&pixel);
    }
    ImageBuffer {
        width,
        height,
        row_pitch: width * 4,
        origin_x: 0,
        origin_y: 0,
        bgra,
    }
}

#[test]
fn wgc_window_methods_recognised() {
    assert!(is_wgc_window_method("wgc-window"));
}

#[test]
fn non_window_methods_rejected() {
    assert!(!is_wgc_window_method("wgc-monitor"));
    assert!(!is_wgc_window_method("wgc-window2"));
    assert!(!is_wgc_window_method("wgc-monitor2"));
    assert!(!is_wgc_window_method("dxgi-window"));
    assert!(!is_wgc_window_method(""));
}

#[test]
fn usable_frame_accepts_normal_content() {
    let img = solid(4, 4, [10, 20, 30, 255]);
    assert!(is_probably_usable_frame(&img));
}

#[test]
fn usable_frame_rejects_fully_black() {
    let img = solid(4, 4, [0, 0, 0, 255]);
    assert!(!is_probably_usable_frame(&img));
}

#[test]
fn usable_frame_rejects_fully_transparent() {
    let img = solid(4, 4, [10, 20, 30, 0]);
    assert!(!is_probably_usable_frame(&img));
}

#[test]
fn usable_frame_empty_image_counts_as_usable() {
    let img = solid(0, 0, [0, 0, 0, 0]);
    assert!(is_probably_usable_frame(&img));
}

#[test]
fn usable_frame_threshold_is_98_percent() {
    // 50 pixels, 49 black: exactly 98% black -> not usable.
    let mut img = solid(50, 1, [0, 0, 0, 255]);
    img.bgra[0] = 200;
    assert!(!is_probably_usable_frame(&img));
    // 48 of 50 black (96%) -> usable.
    img.bgra[4] = 200;
    assert!(is_probably_usable_frame(&img));
}

fn rect(l: i32, t: i32, r: i32, b: i32) -> Rect {
    Rect {
        left: l,
        top: t,
        right: r,
        bottom: b,
    }
}

fn window() -> WindowInfo {
    WindowInfo {
        hwnd: 42,
        pid: 1,
        title: "w".to_string(),
        class_name: "c".to_string(),
        rect: rect(0, 0, 10, 10),
        client_rect_screen: rect(1, 1, 9, 9),
        dwm_frame_rect: rect(2, 3, 8, 9),
        visible: true,
        iconic: false,
        cloaked: false,
    }
}

#[test]
fn frame_origin_uses_dwm_frame_for_window_method() {
    let w = window();
    let cap = rect(100, 100, 200, 200);
    assert_eq!(frame_origin("wgc-window", Some(&w), cap), rect(2, 3, 8, 9));
    assert_eq!(frame_origin("wgc-window", None, cap), cap);
    assert_eq!(frame_origin("wgc-monitor", Some(&w), cap), cap);
}

#[test]
fn frame_region_clips_texture_to_content() {
    let r = frame_region(rect(10, 20, 0, 0), 1920, 1080, 1600, 1200).unwrap();
    assert_eq!((r.width, r.height), (1600, 1080));
    assert_eq!(r.rect, rect(10, 20, 1610, 1100));
    let e = frame_region(rect(0, 0, 0, 0), 10, 10, 0, 5).err().unwrap();
    assert_eq!(e.message, "invalid WGC ContentSize");
    assert_eq!(e.where_, "CopyFrameToImage");
}

#[test]
fn capture_plan_picks_item_and_cursor() {
    let w = window();
    let m = MonitorInfo {
        hmon: 77,
        index: 0,
        name: "m".to_string(),
        desktop: rect(0, 0, 1, 1),
        primary: true,
    };
    let p = plan_wgc_capture("wgc-window", Some(&w), None, false).unwrap();
    assert_eq!(p.item, CaptureItemSource::Window(42));
    assert!(p.exclude_cursor);
    let p = plan_wgc_capture("wgc-monitor", None, Some(&m), true).unwrap();
    assert_eq!(p.item, CaptureItemSource::Monitor(77));
    assert!(!p.exclude_cursor);
    let e = plan_wgc_capture("wgc-window", None, Some(&m), true).unwrap_err();
    assert_eq!(e.message, "wgc-window needs window target");
    let e = plan_wgc_capture("wgc-monitor", Some(&w), None, true).unwrap_err();
    assert_eq!(e.message, "wgc-monitor needs monitor target");
    let e = plan_wgc_capture("wgc-window2", Some(&w), Some(&m), true).unwrap_err();
    assert_eq!(e.message, "unknown wgc method");
}

#[test]
fn capture_loop_stops_on_first_usable_frame() {
    let mut l = CaptureLoop::new(4, 4);
    assert_eq!(
        l.step(LoopEvent::FrameArrived {
            content: Some((4, 4))
        }),
        LoopAction::CopyFrame
    );
    assert_eq!(
        l.step(LoopEvent::FrameCopied(Ok(solid(4, 4, [0, 0, 0, 255])))),
        LoopAction::WaitForFrame
    );
    assert_eq!(
        l.step(LoopEvent::FrameArrived {
            content: Some((8, 4))
        }),
        LoopAction::RecreatePool {
            width: 8,
            height: 4
        }
    );
    assert_eq!(l.step(LoopEvent::PoolRecreated(Ok(()))), LoopAction::WaitForFrame);
    assert_eq!((l.pool_width, l.pool_height), (8, 4));
    assert_eq!(
        l.step(LoopEvent::FrameArrived { content: None }),
        LoopAction::CopyFrame
    );
    assert_eq!(
        l.step(LoopEvent::FrameCopied(Ok(solid(8, 4, [9, 9, 9, 255])))),
        LoopAction::Finish
    );
    let img = l.finish().unwrap();
    assert_eq!(img.width, 8);
}

#[test]
fn capture_loop_gives_up_after_max_frames() {
    let mut l = CaptureLoop::new(1, 1);
    let mut actions = Vec::new();
    for _ in 0..MAX_FRAMES {
        actions.push(l.step(LoopEvent::NoFrame));
    }
    assert_eq!(actions.last(), Some(&LoopAction::Finish));
    assert!(actions[..MAX_FRAMES - 1]
        .iter()
        .all(|a| *a == LoopAction::WaitForFrame));
    let e = l.finish().unwrap_err();
    assert_eq!(e.message, "WGC frame timeout");
}

#[test]
fn capture_loop_reports_last_copy_error() {
    let mut l = CaptureLoop::new(1, 1);
    l.step(LoopEvent::FrameArrived {
        content: Some((1, 1)),
    });
    l.step(LoopEvent::FrameCopied(Err(ErrorInfo::new("copy failed", "X"))));
    assert_eq!(l.step(LoopEvent::DeadlineReached), LoopAction::Finish);
    assert_eq!(l.finish().unwrap_err().message, "copy failed");
}
