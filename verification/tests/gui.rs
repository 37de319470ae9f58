use screencap::gui::{
    advanced_output_path, build_save_filter, extract_cli_error_message, window_action,
    WindowAction, CBN_SELCHANGE, ID_CAPTURE, ID_FORMAT, ID_LIST, ID_TARGET, NM_DBLCLK,
    WM_APP_CAPTURE_DONE, WM_COMMAND, WM_CREATE, WM_DESTROY, WM_NOTIFY, WM_SIZE, capture_args, capture_failure_message, check_capture_output,
    combo_selection_index, control_layout, format_rect, format_size, is_pickable,
    monitor_row_texts, pickable_windows, preferred_monitor_for, restore_monitor_selection,
    screenshot_file_name, select_capture_target, to_wide, to_wide_fixed, window_row_texts,
    CaptureTarget, ControlBox, GuiTarget, ImageFormat,
};
use screencap::types::{MonitorInfo, Rect, WindowInfo};

fn monitor(index: i32, primary: bool) -> MonitorInfo {
    MonitorInfo {
        hmon: index as isize,
        index,
        name: format!(r"\\.\DISPLAY{}", index + 1),
        desktop: Rect {
            left: index * 1920,
            top: 0,
            right: (index + 1) * 1920,
            bottom: 1080,
        },
        primary,
    }
}

fn window(hwnd: isize, title: &str) -> WindowInfo {
    WindowInfo {
        hwnd,
        pid: 42,
        title: title.to_string(),
        class_name: "Cls".to_string(),
        rect: Rect {
            left: 1,
            top: 2,
            right: 101,
            bottom: 52,
        },
        client_rect_screen: Rect::default(),
        dwm_frame_rect: Rect::default(),
        visible: true,
        iconic: false,
        cloaked: false,
    }
}

#[test]
fn restore_monitor_selection_keeps_prev_index() {
    let monitors = vec![monitor(0, true), monitor(1, false)];
    assert_eq!(restore_monitor_selection(&monitors, Some(1)), Some(1));
}

#[test]
fn restore_monitor_selection_falls_back_to_primary_when_gone() {
    let monitors = vec![monitor(0, false), monitor(2, true)];
    assert_eq!(restore_monitor_selection(&monitors, Some(1)), Some(1));
}

#[test]
fn restore_monitor_selection_empty_list() {
    assert_eq!(restore_monitor_selection(&vec![], Some(0)), None);
}

#[test]
fn restore_monitor_selection_defaults_to_first_row() {
    let monitors = vec![monitor(3, false), monitor(4, false)];
    assert_eq!(restore_monitor_selection(&monitors, None), Some(0));
    assert_eq!(restore_monitor_selection(&monitors, Some(4)), Some(1));
}

#[test]
fn capture_target_methods() {
    assert_eq!(CaptureTarget::Window(5).method(), "wgc-window");
    assert_eq!(CaptureTarget::Monitor(1).method(), "wgc-monitor");
}

#[test]
fn wide_text_is_nul_terminated() {
    assert_eq!(to_wide("ab"), vec![97, 98, 0]);
    assert_eq!(to_wide(""), vec![0]);
}

#[test]
fn fixed_wide_buffer_truncates_and_pads() {
    assert_eq!(to_wide_fixed("abc", 6), vec![97, 98, 99, 0, 0, 0]);
    assert_eq!(to_wide_fixed("abcdef", 4), vec![97, 98, 99, 0]);
    assert_eq!(to_wide_fixed("abc", 1), vec![0]);
}

#[test]
fn rect_and_size_text() {
    let r = Rect {
        left: -10,
        top: 20,
        right: 30,
        bottom: 70,
    };
    assert_eq!(format_rect(&r), "-10,20 40x50");
    assert_eq!(format_size(&r), "40x50");
}

#[test]
fn list_row_texts() {
    let w = window(9, "Notes");
    let cells = window_row_texts(&w);
    assert_eq!(cells, vec!["Notes", "Cls", "42", "1,2 100x50"]);
    let m = monitor(1, true);
    let cells = monitor_row_texts(&m);
    assert_eq!(
        cells,
        vec!["1", r"\\.\DISPLAY2", "1920x1080", "yes", "1920,0 1920x1080"]
    );
    assert_eq!(monitor_row_texts(&monitor(0, false))[3], "");
}

#[test]
fn pickable_requires_titled_visible_root_window() {
    let w = window(9, "Notes");
    assert!(is_pickable(&w, 9));
    assert!(!is_pickable(&w, 8));
    assert!(!is_pickable(&window(9, ""), 9));
    let mut hidden = window(9, "x");
    hidden.cloaked = true;
    assert!(!is_pickable(&hidden, 9));
}

#[test]
fn pickable_windows_sorted_by_title_stably() {
    let all = vec![
        window(1, "beta"),
        window(2, "Alpha"),
        window(3, ""),
        window(4, "beta"),
        window(5, "alpha"),
        window(6, "gamma"),
    ];
    let ancestors = vec![1, 2, 3, 4, 5, 0];
    let sorted = pickable_windows(&all, &ancestors);
    let order: Vec<isize> = sorted.iter().map(|w| w.hwnd).collect();
    assert_eq!(order, vec![2, 5, 1, 4]);
}

#[test]
fn save_filter_for_png() {
    let expected: Vec<u16> = "PNG image (*.png)\0*.png\0All files (*.*)\0*.*\0\0"
        .encode_utf16()
        .collect();
    assert_eq!(build_save_filter(ImageFormat::Png), expected);
    assert_eq!(ImageFormat::default().extension(), "png");
}

#[test]
fn combo_selection_falls_back_to_first() {
    assert_eq!(combo_selection_index(1, 2), 1);
    assert_eq!(combo_selection_index(-1, 2), 0);
    assert_eq!(combo_selection_index(2, 2), 0);
}

#[test]
fn layout_of_controls() {
    let l = control_layout(800, 600);
    assert_eq!(l.capture, ControlBox { x: 698, y: 10, w: 92, h: 28 });
    assert_eq!(l.out, ControlBox { x: 10, y: 48, w: 690, h: 24 });
    assert_eq!(l.list, ControlBox { x: 10, y: 82, w: 780, h: 476 });
    assert_eq!(l.status, ControlBox { x: 10, y: 568, w: 780, h: 22 });
    let small = control_layout(100, 100);
    assert_eq!(small.list.h, 80);
}

#[test]
fn capture_target_needs_a_selection() {
    let ws = vec![window(77, "a")];
    let ms = vec![monitor(3, true)];
    assert_eq!(
        select_capture_target(GuiTarget::Window, Some(0), &ws, &ms),
        Ok(CaptureTarget::Window(77))
    );
    assert_eq!(
        select_capture_target(GuiTarget::Window, Some(1), &ws, &ms),
        Err("Select a window first.")
    );
    assert_eq!(
        select_capture_target(GuiTarget::Monitor, Some(0), &ws, &ms),
        Ok(CaptureTarget::Monitor(3))
    );
    assert_eq!(
        select_capture_target(GuiTarget::Monitor, None, &ws, &ms),
        Err("Select a monitor first.")
    );
    assert_eq!(preferred_monitor_for(&ms, Some(0)), Some(3));
    assert_eq!(preferred_monitor_for(&ms, Some(5)), None);
}

#[test]
fn capture_output_checks() {
    assert_eq!(
        check_capture_output("").unwrap_err(),
        "Choose an output path first."
    );
    assert!(check_capture_output("a?.png").is_err());
    assert_eq!(check_capture_output("C:/x/a.png").unwrap(), r"C:\x\a.png");
}

#[test]
fn capture_command_line() {
    let args = capture_args(CaptureTarget::Window(4660), r"C:\a.png", ImageFormat::Png, true);
    assert_eq!(
        args,
        vec![
            "cap", "--method", "wgc-window", "--out", r"C:\a.png", "--overwrite", "--json",
            "--no-log", "--timeout-ms", "2000", "--force-alpha", "255", "--target", "window",
            "--hwnd", "4660", "--cursor"
        ]
    );
    let args = capture_args(CaptureTarget::Monitor(-1), "b.png", ImageFormat::Png, false);
    assert_eq!(&args[12..], &["--target", "screen", "--monitor", "-1"]);
}

#[test]
fn capture_failure_text() {
    assert_eq!(
        capture_failure_message(Some("output exists (use --overwrite)".to_string()), Some(1)),
        "output exists (use --overwrite)"
    );
    assert_eq!(
        capture_failure_message(None, Some(3)),
        "Capture failed. Exit code: 3"
    );
    assert_eq!(capture_failure_message(None, None), "Capture failed. Exit code: 1");
}

#[test]
fn default_file_name() {
    assert_eq!(
        screenshot_file_name("20240101_120000", ImageFormat::Png),
        "screenshot_20240101_120000.png"
    );
}

#[test]
fn next_output_path_keeps_directory() {
    assert_eq!(
        advanced_output_path(r"C:\shots\old.png", "20240102_030405_006", ImageFormat::Png),
        r"C:\shots\screenshot_20240102_030405_006.png"
    );
    assert_eq!(
        advanced_output_path("old.png", "s", ImageFormat::Png),
        "screenshot_s.png"
    );
    assert_eq!(
        advanced_output_path("a/b/", "s", ImageFormat::Png),
        "a/b/screenshot_s.png"
    );
}

#[test]
fn extract_cli_error_message_reads_failure_json() {
    let stdout = r#"{"ok":false,"error":{"message":"output exists (use --overwrite)","where":"SavePngWic"}}"#;
    assert_eq!(
        extract_cli_error_message(stdout).as_deref(),
        Some("output exists (use --overwrite)")
    );
}

#[test]
fn extract_cli_error_message_ignores_non_json() {
    assert!(extract_cli_error_message("not json").is_none());
    assert!(extract_cli_error_message(r#"{"ok":true}"#).is_none());
}

#[test]
fn extract_cli_error_message_trims_and_requires_text() {
    assert_eq!(
        extract_cli_error_message("  {\"error\":{\"message\":\"boom\"}}\n").as_deref(),
        Some("boom")
    );
    assert!(extract_cli_error_message(r#"{"error":{"message":5}}"#).is_none());
}

#[test]
fn window_messages_map_to_actions() {
    let sel = |id: u16| (id as usize) | ((CBN_SELCHANGE as usize) << 16);
    assert_eq!(window_action(WM_CREATE, 0, None), WindowAction::CreateControls);
    assert_eq!(window_action(WM_SIZE, 0, None), WindowAction::Layout);
    assert_eq!(window_action(WM_COMMAND, ID_CAPTURE as usize, None), WindowAction::Capture);
    assert_eq!(window_action(WM_COMMAND, sel(ID_TARGET), None), WindowAction::SwitchTarget);
    assert_eq!(window_action(WM_COMMAND, ID_TARGET as usize, None), WindowAction::Default);
    assert_eq!(window_action(WM_COMMAND, sel(ID_FORMAT), None), WindowAction::SyncExtension);
    assert_eq!(
        window_action(WM_NOTIFY, 0, Some((ID_LIST as usize, NM_DBLCLK))),
        WindowAction::Capture
    );
    assert_eq!(window_action(WM_NOTIFY, 0, Some((ID_LIST as usize, 1))), WindowAction::Default);
    assert_eq!(window_action(WM_DESTROY, 0, None), WindowAction::Quit);
    assert_eq!(window_action(WM_APP_CAPTURE_DONE, 1, None), WindowAction::CaptureDone);
    assert_eq!(window_action(0x0200, 0, None), WindowAction::Default);
}
