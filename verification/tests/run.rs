use screencap::run::{
    check_capture_method, failure_report_command, force_alpha, hotkey_wait_step, monitor_line,
    window_line,
    pre_parse_bootstrap, process_captured_image, resolve_window_for_capture, select_capture_area,
    virtual_screen_rect, CaptureRetry, HOTKEY_ID, WM_HOTKEY,
};
use screencap::types::{
    CapOptions, CommandType, CropMode, ImageBuffer, LogLevel, MonitorInfo, Pad, Rect, TargetType,
    WindowInfo,
};

fn argv(parts: &[&str]) -> Vec<String> {
    parts.iter().map(|s| s.to_string()).collect()
}

#[test]
fn pre_parse_bootstrap_defaults_when_absent() {
    let b = pre_parse_bootstrap(&argv(&["screencap", "cap"]));
    assert_eq!(b.log_dir, "./logs");
    assert_eq!(b.log_level, LogLevel::Info);
    assert_eq!(b.command, "cap");
    assert!(!b.json);
}

#[test]
fn pre_parse_bootstrap_space_separated_flags() {
    let b = pre_parse_bootstrap(&argv(&[
        "screencap",
        "cap",
        "--log-dir",
        "C:\\logs",
        "--log-level",
        "debug",
        "--json",
    ]));
    assert_eq!(b.log_dir, "C:\\logs");
    assert_eq!(b.log_level, LogLevel::Debug);
    assert!(b.json);
}

#[test]
fn pre_parse_bootstrap_equals_form_flags() {
    let b = pre_parse_bootstrap(&argv(&[
        "screencap",
        "cap",
        "--log-dir=C:\\logs",
        "--log-level=warn",
    ]));
    assert_eq!(b.log_dir, "C:\\logs");
    assert_eq!(b.log_level, LogLevel::Warn);
}

#[test]
fn pre_parse_bootstrap_list_windows_command_name() {
    let b = pre_parse_bootstrap(&argv(&["screencap", "list", "windows"]));
    assert_eq!(b.command, "list_windows");
}

#[test]
fn pre_parse_bootstrap_later_flag_wins_and_no_log() {
    let b = pre_parse_bootstrap(&argv(&[
        "screencap",
        "list",
        "--log-level",
        "error",
        "--log-level=trace",
        "--no-log",
        "--log-dir",
    ]));
    assert_eq!(b.command, "list_--log-level");
    assert_eq!(b.log_level, LogLevel::Trace);
    assert!(b.no_log);
    assert_eq!(b.log_dir, "./logs");
    assert_eq!(pre_parse_bootstrap(&argv(&["screencap"])).command, "unknown");
}

#[test]
fn only_wgc_methods_capture() {
    assert!(check_capture_method("wgc-window").is_ok());
    assert!(check_capture_method("wgc-monitor").is_ok());
    let e = check_capture_method("dxgi-window").unwrap_err();
    assert_eq!(e.message, "unknown method 'dxgi-window' (supported: wgc-window, wgc-monitor)");
    assert_eq!(e.where_, "RunCap");
    assert!(e.hresult.is_none() && e.win32_error.is_none());
    let e = check_capture_method("wgc-foo").unwrap_err();
    assert_eq!(e.message, "unknown method 'wgc-foo' (supported: wgc-window, wgc-monitor)");
}

#[test]
fn removed_method_aliases_do_not_capture() {
    let e = check_capture_method("wgc-window2").unwrap_err();
    assert_eq!(e.message, "method 'wgc-window2' was removed; use wgc-window");
    assert_eq!(e.where_, "RunCap");
    let e = check_capture_method("wgc-monitor2").unwrap_err();
    assert_eq!(e.message, "method 'wgc-monitor2' was removed; use wgc-monitor");
}

#[test]
fn retry_makes_retry_plus_one_attempts() {
    let mut r = CaptureRetry::new(2);
    let mut attempts = 0;
    while r.attempt_due() {
        attempts += 1;
        r.record_failure(screencap::types::ErrorInfo::new("boom", "X"));
    }
    assert_eq!(attempts, 3);
    assert_eq!(r.into_error().message, "boom");
    let none = CaptureRetry::new(-1);
    assert!(!none.attempt_due());
    assert_eq!(none.into_error().message, "");
}

#[test]
fn alpha_forced_row_by_row_skipping_padding() {
    let mut img = ImageBuffer {
        width: 1,
        height: 2,
        row_pitch: 6,
        origin_x: 0,
        origin_y: 0,
        bgra: vec![1, 2, 3, 4, 5, 6, 7, 8, 9, 10, 11, 12],
    };
    force_alpha(&mut img);
    assert_eq!(img.bgra, vec![1, 2, 3, 255, 5, 6, 7, 8, 9, 255, 11, 12]);
}

fn cap_options() -> CapOptions {
    CapOptions {
        method: "wgc-window".to_string(),
        ..CapOptions::default()
    }
}

#[test]
fn processing_forces_alpha_and_crops() {
    let mut img = ImageBuffer {
        width: 2,
        height: 2,
        row_pitch: 8,
        origin_x: 10,
        origin_y: 20,
        bgra: vec![1, 1, 1, 0, 2, 2, 2, 0, 3, 3, 3, 0, 4, 4, 4, 0],
    };
    let mut cap = cap_options();
    cap.force_alpha_255 = true;
    cap.crop_mode = CropMode::Manual;
    cap.crop_rect = Some(screencap::types::CropRect {
        x: 11,
        y: 20,
        w: 5,
        h: 5,
    });
    cap.pad = Pad::default();
    let out = process_captured_image(&mut img, &cap, None).unwrap();
    assert_eq!((out.x, out.y, out.w, out.h), (11, 20, 1, 2));
    assert_eq!(img.bgra, vec![2, 2, 2, 255, 4, 4, 4, 255]);
}

#[test]
fn processing_reports_crop_errors() {
    let mut img = ImageBuffer {
        width: 1,
        height: 1,
        row_pitch: 4,
        origin_x: 0,
        origin_y: 0,
        bgra: vec![0, 0, 0, 0],
    };
    let mut cap = cap_options();
    cap.crop_mode = CropMode::Window;
    let e = process_captured_image(&mut img, &cap, None).unwrap_err();
    assert_eq!(e.message, "crop window requested but no window target");
    assert_eq!(img.bgra, vec![0, 0, 0, 0]);
}

fn window(hwnd: isize) -> WindowInfo {
    WindowInfo {
        hwnd,
        pid: 1,
        title: "t".to_string(),
        class_name: "c".to_string(),
        rect: Rect {
            left: 5,
            top: 5,
            right: 50,
            bottom: 50,
        },
        client_rect_screen: Rect::default(),
        dwm_frame_rect: Rect::default(),
        visible: true,
        iconic: false,
        cloaked: false,
    }
}

fn monitor(index: i32, hmon: isize, primary: bool) -> MonitorInfo {
    MonitorInfo {
        hmon,
        index,
        name: "m".to_string(),
        desktop: Rect {
            left: index * 100,
            top: 0,
            right: index * 100 + 100,
            bottom: 100,
        },
        primary,
    }
}

#[test]
fn window_method_needs_window_target() {
    let mut cap = cap_options();
    cap.target = TargetType::Screen;
    let e = resolve_window_for_capture(&cap, &vec![], 0, &vec![]).unwrap_err();
    assert_eq!(e.message, "method 'wgc-window' requires --target window");
    cap.method = "wgc-monitor".to_string();
    assert!(resolve_window_for_capture(&cap, &vec![], 0, &vec![]).unwrap().is_none());
    cap.target = TargetType::Window;
    cap.window_query.hwnd = Some(9);
    let (w, _) = resolve_window_for_capture(&cap, &vec![window(9)], 0, &vec![9])
        .unwrap()
        .unwrap();
    assert_eq!(w.hwnd, 9);
}

#[test]
fn capture_area_choices() {
    let ms = vec![monitor(0, 100, true), monitor(1, 101, false)];
    let mut cap = cap_options();
    cap.target = TargetType::Screen;
    cap.method = "wgc-monitor".to_string();
    cap.screen_query.monitor = Some("1".to_string());
    let (m, r) = select_capture_area(&cap, None, &ms, Rect::default(), 0).unwrap();
    assert_eq!(m.unwrap().index, 1);
    assert_eq!(r.left, 100);
    cap.screen_query.monitor = Some("7".to_string());
    let e = select_capture_area(&cap, None, &ms, Rect::default(), 0).unwrap_err();
    assert_eq!(e.message, "monitor not found");
    cap.screen_query.monitor = None;
    cap.screen_query.virtual_screen = true;
    let vr = virtual_screen_rect(-100, 0, 300, 100);
    let (m, r) = select_capture_area(&cap, None, &ms, vr, 0).unwrap();
    assert!(m.is_none());
    assert_eq!(r, Rect { left: -100, top: 0, right: 200, bottom: 100 });
    // A window capture through a monitor method takes the window's monitor.
    let mut wcap = cap_options();
    wcap.method = "wgc-monitor".to_string();
    let w = window(3);
    let (m, r) = select_capture_area(&wcap, Some(&w), &ms, Rect::default(), 101).unwrap();
    assert_eq!(m.unwrap().index, 1);
    assert_eq!(r.left, 100);
    // Unknown monitor handle: falls back to the window rectangle.
    let (m, r) = select_capture_area(&wcap, Some(&w), &ms, Rect::default(), 555).unwrap();
    assert!(m.is_none());
    assert_eq!(r, w.rect);
    // Plain window capture: window rectangle.
    let (m, r) = select_capture_area(&cap_options(), Some(&w), &ms, Rect::default(), 0).unwrap();
    assert!(m.is_none());
    assert_eq!(r, w.rect);
}

#[test]
fn hotkey_messages() {
    let e = hotkey_wait_step(-1, 0, 0, 5).unwrap().unwrap_err();
    assert_eq!(e.message, "GetMessage failed");
    assert_eq!(e.win32_error, Some(5));
    let e = hotkey_wait_step(0, 0, 0, 0).unwrap().unwrap_err();
    assert_eq!(e.message, "message loop ended before hotkey");
    assert!(hotkey_wait_step(1, WM_HOTKEY, HOTKEY_ID as usize, 0).unwrap().is_ok());
    assert!(hotkey_wait_step(1, WM_HOTKEY, 1, 0).is_none());
    assert!(hotkey_wait_step(1, 0x0100, HOTKEY_ID as usize, 0).is_none());
}

#[test]
fn failure_reports() {
    assert_eq!(failure_report_command(false, CommandType::Cap), Some("cap"));
    assert_eq!(failure_report_command(true, CommandType::ListWindows), Some("list"));
    assert_eq!(failure_report_command(false, CommandType::ListMonitors), None);
}

#[test]
fn list_lines() {
    let mut w = window(-2);
    w.iconic = true;
    assert_eq!(
        window_line(&w),
        "hwnd=18446744073709551614 pid=1 title=t class=c rect=5,5,50,50 visible=1 iconic=1 cloaked=0"
    );
    assert_eq!(
        monitor_line(&monitor(1, 101, true)),
        "index=1 name=m rect=100,0,200,100 primary=1"
    );
}
