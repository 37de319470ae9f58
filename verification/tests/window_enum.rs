use screencap::types::{Rect, TargetWindowQuery, WindowInfo};
use screencap::window_enum::{
    area, contains_i, rect_from_corners, resolve_window_target, text_from_units,
};

fn window(hwnd: isize, pid: u32, title: &str, class: &str, rect: Rect) -> WindowInfo {
    WindowInfo {
        hwnd,
        pid,
        title: title.to_string(),
        class_name: class.to_string(),
        rect,
        client_rect_screen: rect,
        dwm_frame_rect: rect,
        visible: true,
        iconic: false,
        cloaked: false,
    }
}

fn rect(l: i32, t: i32, r: i32, b: i32) -> Rect {
    Rect {
        left: l,
        top: t,
        right: r,
        bottom: b,
    }
}

#[test]
fn contains_i_matches_ignoring_case() {
    assert!(contains_i("My Notepad Window", "notepad"));
    assert!(contains_i("NOTEPAD", "Notepad"));
}

#[test]
fn contains_i_non_match_returns_false() {
    assert!(!contains_i("My Notepad Window", "chrome"));
}

#[test]
fn contains_i_empty_needle_matches_without_panicking() {
    assert!(contains_i("anything", ""));
    assert!(contains_i("", ""));
}

#[test]
fn contains_i_needle_longer_than_haystack() {
    assert!(!contains_i("ab", "abc"));
    assert!(contains_i("\u{e9}T\u{e9}", "t\u{e9}"));
}

#[test]
fn area_counts_negative_extent_as_zero() {
    assert_eq!(area(&rect(0, 0, 10, 20)), 200);
    assert_eq!(area(&rect(10, 0, 0, 20)), 0);
    assert_eq!(area(&rect(i32::MIN, i32::MIN, i32::MAX, i32::MAX)), 0xFFFF_FFFFu64 * 0xFFFF_FFFF);
}

#[test]
fn resolve_by_hwnd_and_missing_hwnd() {
    let all = vec![
        window(1, 10, "a", "C", rect(0, 0, 10, 10)),
        window(2, 20, "b", "C", rect(0, 0, 10, 10)),
    ];
    let anc = vec![1, 2];
    let q = TargetWindowQuery {
        hwnd: Some(2),
        ..TargetWindowQuery::default()
    };
    let (w, reason) = resolve_window_target(&q, &all, 0, &anc).unwrap();
    assert_eq!(w.hwnd, 2);
    assert_eq!(reason, "matched by --hwnd");
    let q = TargetWindowQuery {
        hwnd: Some(3),
        ..TargetWindowQuery::default()
    };
    let e = resolve_window_target(&q, &all, 0, &anc).unwrap_err();
    assert_eq!(e.message, "window not found by --hwnd");
    assert_eq!(e.where_, "ResolveWindowTarget");
}

#[test]
fn resolve_foreground() {
    let all = vec![window(7, 1, "x", "C", rect(0, 0, 1, 1))];
    let anc = vec![7];
    let q = TargetWindowQuery {
        foreground: true,
        ..TargetWindowQuery::default()
    };
    let (w, reason) = resolve_window_target(&q, &all, 7, &anc).unwrap();
    assert_eq!(w.hwnd, 7);
    assert_eq!(reason, "matched by --foreground");
    let e = resolve_window_target(&q, &all, 8, &anc).unwrap_err();
    assert_eq!(e.message, "foreground window not found");
}

#[test]
fn resolve_filters_rank_usable_then_root_then_area() {
    let mut hidden_big = window(1, 5, "Editor", "Main", rect(0, 0, 1000, 1000));
    hidden_big.visible = false;
    let child = window(2, 5, "editor child", "Main", rect(0, 0, 500, 500));
    let root_small = window(3, 5, "EDITOR", "Main", rect(0, 0, 100, 100));
    let root_big = window(4, 5, "my editor", "Main", rect(0, 0, 200, 200));
    let root_big_twin = window(5, 5, "editor 2", "Main", rect(0, 0, 200, 200));
    let other_pid = window(6, 9, "editor", "Main", rect(0, 0, 900, 900));
    let all = vec![hidden_big, child, root_small, root_big, root_big_twin, other_pid];
    let anc = vec![1, 99, 3, 4, 5, 6];
    let q = TargetWindowQuery {
        pid: Some(5),
        title: Some("Editor".to_string()),
        class_name: Some("Main".to_string()),
        ..TargetWindowQuery::default()
    };
    let (w, reason) = resolve_window_target(&q, &all, 0, &anc).unwrap();
    assert_eq!(w.hwnd, 4);
    assert_eq!(
        reason,
        "matched by filters, selected by priority(visible&&!iconic&&!cloaked > root > max area)"
    );
}

#[test]
fn resolve_no_match() {
    let all = vec![window(1, 5, "a", "C", rect(0, 0, 1, 1))];
    let q = TargetWindowQuery {
        class_name: Some("c".to_string()),
        ..TargetWindowQuery::default()
    };
    let e = resolve_window_target(&q, &all, 0, &vec![1]).unwrap_err();
    assert_eq!(e.message, "no matching windows");
}

#[test]
fn corners_are_put_in_order() {
    assert_eq!(rect_from_corners(50, 5, 10, 40), rect(10, 5, 50, 40));
    assert_eq!(rect_from_corners(1, 2, 3, 4), rect(1, 2, 3, 4));
}

#[test]
fn window_text_uses_reported_length() {
    let buf: Vec<u16> = "Title\0\0".encode_utf16().collect();
    assert_eq!(text_from_units(&buf, 5), "Title");
    assert_eq!(text_from_units(&buf, -1), "");
}
