use screencap::d3d11_copy::pack_texture_rows;
use screencap::image_stats::{compute_frame_counts, compute_image_counts};
use screencap::logging::{
    format_log_line, get_build_stamp, log_file_name, log_level_name, os_version_text,
    parse_log_level, should_log,
};
use screencap::number::{hex8, i64_to_string};
use screencap::types::{hresult_text, ErrorInfo, ImageBuffer, LogLevel, Rect};

fn image(width: i32, height: i32, row_pitch: i32, bgra: Vec<u8>) -> ImageBuffer {
    ImageBuffer {
        width,
        height,
        row_pitch,
        origin_x: 0,
        origin_y: 0,
        bgra,
    }
}

#[test]
fn counts_of_black_and_white_halves() {
    let img = image(2, 1, 8, vec![0, 0, 0, 255, 255, 255, 255, 255]);
    let c = compute_image_counts(&img);
    assert_eq!(c.pixels, 2);
    assert_eq!(c.black, 1);
    assert_eq!(c.transparent, 0);
    assert_eq!((c.r_sum, c.g_sum, c.b_sum), (255, 255, 255));
}

#[test]
fn counts_ignore_row_padding() {
    let img = image(1, 2, 8, vec![0, 0, 0, 0, 9, 9, 9, 9, 10, 20, 30, 255, 9, 9, 9, 9]);
    let c = compute_image_counts(&img);
    assert_eq!(c.pixels, 2);
    assert_eq!(c.black, 1);
    assert_eq!(c.transparent, 1);
    assert_eq!((c.r_sum, c.g_sum, c.b_sum), (30, 20, 10));
    let f = compute_frame_counts(&img);
    assert_eq!((f.pixels, f.black, f.transparent), (2, 1, 1));
}

#[test]
fn empty_image_counts_are_zero() {
    let c = compute_image_counts(&image(0, 0, 0, vec![]));
    assert_eq!((c.pixels, c.black, c.transparent, c.r_sum), (0, 0, 0, 0));
}

#[test]
fn log_levels_and_lines() {
    assert_eq!(parse_log_level("warn"), LogLevel::Warn);
    assert_eq!(parse_log_level("WARN"), LogLevel::Info);
    assert_eq!(log_level_name(LogLevel::Trace), "trace");
    for lv in [LogLevel::Trace, LogLevel::Debug, LogLevel::Info, LogLevel::Warn, LogLevel::Error] {
        assert_eq!(parse_log_level(log_level_name(lv)), lv);
    }
    assert!(should_log(LogLevel::Warn, LogLevel::Info));
    assert!(!should_log(LogLevel::Debug, LogLevel::Info));
    assert_eq!(
        format_log_line("2024-01-01T00:00:00", LogLevel::Error, "x"),
        "[2024-01-01T00:00:00] [error] x\n"
    );
    assert_eq!(log_file_name("20240101", 42, ""), "20240101_42_unknown.log");
    assert_eq!(log_file_name("20240101", 7, "cap"), "20240101_7_cap.log");
    assert_eq!(os_version_text(10, 0, 22631), "Windows 10.0 build 22631");
    assert_eq!(get_build_stamp(), "rust build");
}

#[test]
fn error_text_and_codes() {
    let e = ErrorInfo::with_hresult("boom", "W", 0x8000_4005);
    assert_eq!(e.describe(), "boom (W) hresult=0x80004005");
    let e = ErrorInfo::with_win32("bad", "V", 5);
    assert_eq!(e.describe(), "bad (V) win32_error=5");
    assert_eq!(ErrorInfo::new("m", "w").describe(), "m (w)");
    assert_eq!(hresult_text(0x1A), "0x0000001A");
    assert_eq!(hex8(0xDEADBEEF).iter().collect::<String>(), "DEADBEEF");
    assert_eq!(i64_to_string(i64::MIN), i64::MIN.to_string());
}

#[test]
fn texture_rows_are_packed() {
    let src = vec![1, 2, 3, 4, 0, 0, 5, 6, 7, 8, 0, 0];
    let img = pack_texture_rows(
        &src,
        6,
        Rect {
            left: 3,
            top: 4,
            right: 4,
            bottom: 6,
        },
    );
    assert_eq!(img.bgra, vec![1, 2, 3, 4, 5, 6, 7, 8]);
    assert_eq!((img.width, img.height, img.row_pitch), (1, 2, 4));
    assert_eq!((img.origin_x, img.origin_y), (3, 4));
}

#[test]
fn rect_geometry() {
    let r = Rect {
        left: 1,
        top: 2,
        right: 11,
        bottom: 7,
    };
    assert_eq!(r.width(), 10);
    assert_eq!(r.height(), 5);
    assert!(r.is_valid());
    assert!(!Rect::default().is_valid());
}
