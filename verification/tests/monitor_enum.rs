use screencap::monitor_enum::{
    find_monitor_by_token, parse_monitor_index, text_until_nul, MonitorEnumeration, MonitorReport,
};
use screencap::types::{MonitorInfo, Rect};

fn monitor(index: i32, primary: bool) -> MonitorInfo {
    MonitorInfo {
        hmon: 0x1000 + index as isize,
        index,
        name: format!("\\\\.\\DISPLAY{}", index + 1),
        desktop: Rect {
            left: 0,
            top: 0,
            right: 1920,
            bottom: 1080,
        },
        primary,
    }
}

fn sample_monitors() -> Vec<MonitorInfo> {
    vec![monitor(0, false), monitor(1, true), monitor(2, false)]
}

#[test]
fn parse_monitor_index_reads_decimal_and_trims() {
    assert_eq!(parse_monitor_index("2"), Some(2));
    assert_eq!(parse_monitor_index("  1 "), Some(1));
    assert_eq!(parse_monitor_index("primary"), None);
    assert_eq!(parse_monitor_index("1x"), None);
}

#[test]
fn find_monitor_by_token_primary() {
    let m = find_monitor_by_token(&sample_monitors(), "primary").unwrap();
    assert_eq!(m.index, 1);
    assert!(m.primary);
}

#[test]
fn find_monitor_by_token_valid_index() {
    let m = find_monitor_by_token(&sample_monitors(), "2").unwrap();
    assert_eq!(m.index, 2);
}

#[test]
fn find_monitor_by_token_out_of_range_and_garbage() {
    assert!(find_monitor_by_token(&sample_monitors(), "9").is_none());
    assert!(find_monitor_by_token(&sample_monitors(), "nope").is_none());
}

#[test]
fn parse_monitor_index_accepts_sign_and_rejects_overflow() {
    assert_eq!(parse_monitor_index("+3"), Some(3));
    assert_eq!(parse_monitor_index("-1"), Some(-1));
    assert_eq!(parse_monitor_index("2147483648"), None);
    assert_eq!(parse_monitor_index(""), None);
}

#[test]
fn primary_token_picks_first_primary() {
    let ms = vec![monitor(0, false), monitor(1, true), monitor(2, true)];
    assert_eq!(find_monitor_by_token(&ms, "primary").unwrap().index, 1);
    assert!(find_monitor_by_token(&[monitor(0, false)].to_vec(), "primary").is_none());
}

#[test]
fn enumeration_leaves_gap_for_unreadable_monitor() {
    let mut e = MonitorEnumeration::new();
    let report = |n: isize| MonitorReport {
        hmon: n,
        name: format!("D{n}"),
        desktop: Rect::default(),
        primary: n == 0,
    };
    e.visit(Some(report(0)));
    e.visit(None);
    e.visit(Some(report(2)));
    let list = e.finish();
    assert_eq!(list.len(), 2);
    assert_eq!(list[0].index, 0);
    assert_eq!(list[1].index, 2);
    assert_eq!(list[1].hmon, 2);
}

#[test]
fn device_name_stops_at_nul() {
    let mut buf: Vec<u16> = "\\\\.\\DISPLAY1".encode_utf16().collect();
    buf.extend_from_slice(&[0, 65, 66]);
    assert_eq!(text_until_nul(&buf), "\\\\.\\DISPLAY1");
    let full: Vec<u16> = "AB".encode_utf16().collect();
    assert_eq!(text_until_nul(&full), "AB");
}
