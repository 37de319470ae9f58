//! Decisions of the command runner: the logging bootstrap read from the raw
//! arguments before full parsing, the capture-method check, the retry
//! policy, the processing of a captured image, and the hotkey wait.

use vstd::prelude::*;

use crate::crop::{
    crop_image_in_place, crop_spec, resolve_crop_message, resolve_crop_rect_screen,
    resolved_crop_spec,
};
use crate::monitor_enum::{find_monitor_by_token, find_monitor_spec};
use crate::text::{is_prefix_of, seq_contains, str_contains, str_eq, strip_prefix_str};
use crate::types::{
    CapOptions, CommandType, CropRect, ErrorInfo, ImageBuffer, ImageModel, LogLevel, MonitorInfo,
    Rect, TargetType, WindowInfo,
};
use crate::number::{decimal_chars, decimal_digits, decimal_text, i64_to_string};
use crate::text::string_from_chars;
use crate::window_enum::{resolve_window_target, window_lookup};
use crate::logging::{parse_log_level, parse_log_level_spec};

verus! {

/// Logging settings read from the raw arguments before full parsing, so
/// that logging can start even when parsing fails.
#[derive(Debug)]
pub struct BootstrapOptions {
    pub log_dir: String,
    pub log_level: LogLevel,
    pub command: String,
    pub json: bool,
    /// `--no-log` disables file logging entirely.
    pub no_log: bool,
}

pub ghost struct BootFlags {
    pub log_dir: Seq<char>,
    pub log_level: LogLevel,
    pub json: bool,
    pub no_log: bool,
}

pub open spec fn initial_boot_flags() -> BootFlags {
    BootFlags { log_dir: "./logs"@, log_level: LogLevel::Info, json: false, no_log: false }
}

/// Applies the global flags from position `i` on: `--log-dir <v>`,
/// `--log-dir=<v>`, `--log-level <v>`, `--log-level=<v>`, `--json`,
/// `--no-log`; a later occurrence overrides an earlier one, and a flag that
/// needs a value but is last is ignored.
pub open spec fn scan_flags(argv: Seq<String>, i: nat, st: BootFlags) -> BootFlags
    decreases argv.len() - i,
{
    if i >= argv.len() {
        st
    } else {
        let a = argv[i as int]@;
        if a == "--log-dir"@ && i + 1 < argv.len() {
            scan_flags(argv, i + 2, BootFlags { log_dir: argv[i + 1 as int]@, ..st })
        } else if is_prefix_of("--log-dir="@, a) {
            scan_flags(argv, i + 1, BootFlags { log_dir: a.skip(10), ..st })
        } else if a == "--log-level"@ && i + 1 < argv.len() {
            scan_flags(
                argv,
                i + 2,
                BootFlags { log_level: parse_log_level_spec(argv[i + 1 as int]@), ..st },
            )
        } else if is_prefix_of("--log-level="@, a) {
            scan_flags(argv, i + 1, BootFlags { log_level: parse_log_level_spec(a.skip(12)), ..st })
        } else if a == "--json"@ {
            scan_flags(argv, i + 1, BootFlags { json: true, ..st })
        } else if a == "--no-log"@ {
            scan_flags(argv, i + 1, BootFlags { no_log: true, ..st })
        } else {
            scan_flags(argv, i + 1, st)
        }
    }
}

/// The command name used for the log file: the first argument, or
/// `list_<what>` for `list <what>`, or `unknown`.
pub open spec fn boot_command(argv: Seq<String>) -> Seq<char> {
    if argv.len() >= 2 {
        if argv[1]@ == "list"@ && argv.len() >= 3 {
            "list_"@ + argv[2]@
        } else {
            argv[1]@
        }
    } else {
        "unknown"@
    }
}

/// Reads the logging flags from the raw arguments (`argv[0]` is the
/// program name).
pub fn pre_parse_bootstrap(argv: &Vec<String>) -> (b: BootstrapOptions)
    ensures
        b.command@ == boot_command(argv@),
        ({
            let f = scan_flags(argv@, 1, initial_boot_flags());
            &&& b.log_dir@ == f.log_dir
            &&& b.log_level == f.log_level
            &&& b.json == f.json
            &&& b.no_log == f.no_log
        }),
{
    let argc = argv.len();
    let command = if argc >= 2 {
        if str_eq(argv[1].as_str(), "list") && argc >= 3 {
            let mut c = "list_".to_owned();
            c.append(argv[2].as_str());
            c
        } else {
            argv[1].clone()
        }
    } else {
        "unknown".to_owned()
    };
    let mut log_dir = "./logs".to_owned();
    let mut log_level = LogLevel::Info;
    let mut json = false;
    let mut no_log = false;
    let mut i: usize = 1;
    while i < argc
        invariant
            argc == argv@.len(),
            1 <= i,
            scan_flags(argv@, 1, initial_boot_flags()) == scan_flags(
                argv@,
                i as nat,
                BootFlags { log_dir: log_dir@, log_level, json, no_log },
            ),
        decreases argc - i,
    {
        let a = argv[i].as_str();
        if str_eq(a, "--log-dir") && i + 1 < argc {
            i = i + 1;
            log_dir = argv[i].clone();
        } else if let Some(value) = strip_prefix_str(a, "--log-dir=") {
            proof {
                reveal_strlit("--log-dir=");
            }
            log_dir = value;
        } else if str_eq(a, "--log-level") && i + 1 < argc {
            i = i + 1;
            log_level = parse_log_level(argv[i].as_str());
        } else if let Some(value) = strip_prefix_str(a, "--log-level=") {
            proof {
                reveal_strlit("--log-level=");
            }
            log_level = parse_log_level(value.as_str());
        } else if str_eq(a, "--json") {
            json = true;
        } else if str_eq(a, "--no-log") {
            no_log = true;
        }
        i = i + 1;
    }
    BootstrapOptions { log_dir, log_level, command, json, no_log }
}


/// Where the command runner reports its own errors.
pub open spec fn run_where() -> Seq<char> {
    "RunCap"@
}

/// `e` is an error raised by the runner itself with the given message.
pub open spec fn run_error(e: ErrorInfo, message: Seq<char>) -> bool {
    e.message@ == message && e.where_@ == run_where() && e.hresult is None && e.win32_error is None
}

/// Message for a window method used without a window target.
pub open spec fn window_target_message(method: Seq<char>) -> Seq<char> {
    "method '"@ + method + "' requires --target window"@
}

/// Only `wgc-window` and `wgc-monitor` can capture; any other method is
/// refused with the message `crate::cli::method_rejection` gives for it
/// (the replacement for a removed alias, else the supported methods).
pub fn check_capture_method(method: &str) -> (r: Result<(), ErrorInfo>)
    ensures
        r is Ok <==> (method@ == "wgc-window"@ || method@ == "wgc-monitor"@),
        r matches Err(e) ==> (crate::cli::method_rejection(method@) matches Some(m)
            && run_error(e, m)),
{
    match crate::cli::check_method(method) {
        None => Ok(()),
        Some(m) => Err(ErrorInfo { message: m, where_: "RunCap".to_owned(), hresult: None, win32_error: None }),
    }
}

/// Progress of the capture attempts: attempts are numbered `0..=retry`
/// and the loop stops at the first success; after the last failed attempt
/// its error is the result (with no attempt at all when `retry` is
/// negative, an empty error).
pub struct CaptureRetry {
    pub retry: i32,
    /// Number of failed attempts so far.
    pub failures: i64,
    pub last_error: ErrorInfo,
}

impl CaptureRetry {
    /// Attempts stay within `0..=retry`.
    pub open spec fn wf(self) -> bool {
        &&& 0 <= self.failures
        &&& self.retry >= 0 ==> self.failures <= self.retry + 1
        &&& self.retry < 0 ==> self.failures == 0
    }

    /// Whether another attempt is due.
    pub open spec fn spec_attempt_due(self) -> bool {
        self.failures <= self.retry as int
    }

    pub fn new(retry: i32) -> (s: Self)
        ensures
            s.wf(),
            s.retry == retry,
            s.failures == 0,
            s.last_error.message@ == Seq::<char>::empty(),
            s.last_error.where_@ == Seq::<char>::empty(),
            s.last_error.hresult is None && s.last_error.win32_error is None,
    {
        CaptureRetry { retry, failures: 0, last_error: ErrorInfo::default() }
    }

    /// Whether another attempt is due; its number is `failures`.
    pub fn attempt_due(&self) -> (b: bool)
        ensures
            b == self.spec_attempt_due(),
    {
        self.failures <= self.retry as i64
    }

    /// Records that the due attempt failed with `e`.
    pub fn record_failure(&mut self, e: ErrorInfo)
        requires
            old(self).wf(),
            old(self).spec_attempt_due(),
        ensures
            final(self).wf(),
            final(self).retry == old(self).retry,
            final(self).failures == old(self).failures + 1,
            final(self).last_error == e,
    {
        self.failures = self.failures + 1;
        self.last_error = e;
    }

    /// The error reported once no attempt is due any more.
    pub fn into_error(self) -> (e: ErrorInfo)
        ensures
            e == self.last_error,
    {
        self.last_error
    }
}

/// Every state of the attempt loop lies within the attempt budget, and when
/// no attempt is due every one of the `retry + 1` attempts has failed (none
/// was made for a negative `retry`).
pub proof fn law_retry_attempts_bounded(s: CaptureRetry)
    requires
        s.wf(),
    ensures
        s.retry >= 0 ==> s.failures <= s.retry + 1,
        !s.spec_attempt_due() ==> s.failures == if s.retry >= 0 {
            s.retry + 1
        } else {
            0
        },
        s.spec_attempt_due() ==> s.failures <= s.retry,
{
}

/// Byte `i` of `m` is the alpha byte of one of its pixels (rows are
/// `row_pitch` bytes apart; row padding holds no pixels).
pub open spec fn is_alpha_byte(m: ImageModel, i: int) -> bool {
    let p = m.row_pitch as int;
    &&& p > 0
    &&& 0 <= i
    &&& i / p < m.height
    &&& i % p < m.width * 4
    &&& (i % p) % 4 == 3
}

/// `m` with the alpha byte of every pixel set to 255.
pub open spec fn force_alpha_spec(m: ImageModel) -> ImageModel {
    ImageModel {
        bytes: Seq::new(
            m.bytes.len(),
            |i: int|
                if is_alpha_byte(m, i) {
                    255u8
                } else {
                    m.bytes[i]
                },
        ),
        ..m
    }
}

/// The alpha bytes set so far when the walk is at pixel `x` of row `y`.
pub open spec fn alpha_done(m: ImageModel, i: int, y: int, x: int) -> bool {
    let p = m.row_pitch as int;
    is_alpha_byte(m, i) && (i / p < y || (i / p == y && (i % p) / 4 < x))
}

proof fn lemma_alpha_step(m: ImageModel, y: int, x: int, k: int)
    requires
        m.well_formed(),
        0 <= y < m.height,
        0 <= x < m.width,
        k == y * m.row_pitch + 4 * x + 3,
    ensures
        0 <= k < m.bytes.len(),
        forall|i: int| #[trigger] alpha_done(m, i, y, x + 1) == (alpha_done(m, i, y, x) || i == k),
{
    let p = m.row_pitch as int;
    assert(k + 1 <= (m.height - 1) * p + m.width * 4) by (nonlinear_arith)
        requires
            0 <= y <= m.height - 1,
            0 <= x < m.width,
            0 <= p,
            k == y * p + 4 * x + 3,
    ;
    assert(0 <= k) by (nonlinear_arith)
        requires
            0 <= y,
            0 <= x,
            0 <= p,
            k == y * p + 4 * x + 3,
    ;
    vstd::arithmetic::div_mod::lemma_fundamental_div_mod_converse(k, p, y, 4 * x + 3);
    assert forall|i: int| #[trigger] alpha_done(m, i, y, x + 1) == (alpha_done(m, i, y, x) || i == k) by {
        if i >= 0 && i != k && alpha_done(m, i, y, x + 1) && !alpha_done(m, i, y, x) {
            let r = i % p;
            let q = i / p;
            vstd::arithmetic::div_mod::lemma_fundamental_div_mod(i, p);
            vstd::arithmetic::div_mod::lemma_fundamental_div_mod(r, 4);
            assert(q == y);
            assert(r / 4 == x);
            assert(r == 4 * x + 3);
            assert(i == p * q + r);
            assert(p * q == y * p) by (nonlinear_arith)
                requires
                    q == y,
            ;
            assert(i == k);
        }
    }
}

proof fn lemma_alpha_row_end(m: ImageModel, y: int)
    requires
        m.well_formed(),
    ensures
        forall|i: int| #[trigger] alpha_done(m, i, y, m.width as int) == alpha_done(m, i, y + 1, 0),
{
    let p = m.row_pitch as int;
    assert forall|i: int| #[trigger] alpha_done(m, i, y, m.width as int) == alpha_done(m, i, y + 1, 0) by {
        if is_alpha_byte(m, i) {
            let r = i % p;
            assert(r / 4 < m.width as int) by {
                vstd::arithmetic::div_mod::lemma_fundamental_div_mod(r, 4);
            }
            assert(r / 4 >= 0) by {
                vstd::arithmetic::div_mod::lemma_fundamental_div_mod(r, 4);
            }
        }
    }
}

/// Sets the alpha byte of every pixel to 255, row by row (row padding is
/// left alone).
pub fn force_alpha(img: &mut ImageBuffer)
    requires
        old(img)@.well_formed(),
    ensures
        final(img)@ == force_alpha_spec(old(img)@),
{
    let ghost m = img@;
    let h = img.height as usize;
    let w = img.width as usize;
    let p = img.row_pitch as usize;
    let len = img.bgra.len();
    let mut y: usize = 0;
    while y < h
        invariant
            m.well_formed(),
            len == m.bytes.len(),
            h == m.height,
            w == m.width,
            p == m.row_pitch,
            y <= h,
            img@ == (ImageModel { bytes: img@.bytes, ..m }),
            img@.bytes.len() == m.bytes.len(),
            forall|i: int|
                0 <= i < m.bytes.len() ==> #[trigger] img@.bytes[i] == if alpha_done(
                    m,
                    i,
                    y as int,
                    0,
                ) {
                    255u8
                } else {
                    m.bytes[i]
                },
        decreases h - y,
    {
        let mut x: usize = 0;
        while x < w
            invariant
                m.well_formed(),
                len == m.bytes.len(),
                h == m.height,
                w == m.width,
                p == m.row_pitch,
                y < h,
                x <= w,
                img@ == (ImageModel { bytes: img@.bytes, ..m }),
                img@.bytes.len() == m.bytes.len(),
                forall|i: int|
                    0 <= i < m.bytes.len() ==> #[trigger] img@.bytes[i] == if alpha_done(
                        m,
                        i,
                        y as int,
                        x as int,
                    ) {
                        255u8
                    } else {
                        m.bytes[i]
                    },
            decreases w - x,
        {
            proof {
                lemma_alpha_step(m, y as int, x as int, y * p + 4 * x + 3);
                assert(0 <= y * p) by (nonlinear_arith)
                    requires
                        0 <= y,
                        0 <= p,
                ;
            }
            let k = y * p + 4 * x + 3;
            img.bgra.set(k, 255u8);
            x = x + 1;
        }
        proof {
            lemma_alpha_row_end(m, y as int);
        }
        y = y + 1;
    }
    proof {
        assert forall|i: int| 0 <= i < m.bytes.len() implies alpha_done(m, i, h as int, 0)
            == is_alpha_byte(m, i) by {}
    }
    assert(img@.bytes =~= force_alpha_spec(m).bytes);
}

/// Forcing alpha makes every pixel opaque and leaves its colour bytes
/// alone.
pub proof fn law_force_alpha_opaque_pixels(m: ImageModel)
    requires
        m.well_formed(),
    ensures
        forall|x: int, y: int, c: int|
            0 <= x < m.width && 0 <= y < m.height && 0 <= c < 4 ==> #[trigger] force_alpha_spec(
                m,
            ).bytes[m.offset(x, y, c)] == if c == 3 {
                255u8
            } else {
                m.bytes[m.offset(x, y, c)]
            },
        force_alpha_spec(m).bytes.len() == m.bytes.len(),
{
    let p = m.row_pitch as int;
    assert forall|x: int, y: int, c: int|
        0 <= x < m.width && 0 <= y < m.height && 0 <= c < 4 implies #[trigger] force_alpha_spec(
            m,
        ).bytes[m.offset(x, y, c)] == if c == 3 {
            255u8
        } else {
            m.bytes[m.offset(x, y, c)]
        } by {
        let i = m.offset(x, y, c);
        assert(0 <= i < m.bytes.len()) by (nonlinear_arith)
            requires
                0 <= x < m.width,
                0 <= y < m.height,
                0 <= c < 4,
                m.width * 4 <= p,
                (m.height - 1) * p + m.width * 4 <= m.bytes.len(),
                i == y * p + x * 4 + c,
        ;
        vstd::arithmetic::div_mod::lemma_fundamental_div_mod_converse(i, p, y, 4 * x + c);
        vstd::arithmetic::div_mod::lemma_fundamental_div_mod_converse(4 * x + c, 4, x, c);
    }
}

/// The image model after the optional alpha forcing.
pub open spec fn alpha_stage(m: ImageModel, force: bool) -> ImageModel {
    if force {
        force_alpha_spec(m)
    } else {
        m
    }
}

/// Post-processing of a captured image: optional alpha forcing, crop
/// rectangle resolution against the image's screen rectangle, and the crop
/// itself. Returns the final crop rectangle in screen coordinates.
pub fn process_captured_image(
    img: &mut ImageBuffer,
    cap: &CapOptions,
    window: Option<&WindowInfo>,
) -> (r: Result<CropRect, ErrorInfo>)
    requires
        old(img)@.well_formed(),
    ensures
        final(img)@.well_formed(),
        ({
            let m1 = alpha_stage(old(img)@, cap.force_alpha_255);
            let w = match window {
                Some(w) => Some(*w),
                None => None,
            };
            match resolved_crop_spec(cap.crop_mode, cap.crop_rect, w, m1.screen_rect(), cap.pad) {
                None => {
                    &&& r matches Err(e) && e.message@ == resolve_crop_message(
                        cap.crop_mode,
                        cap.crop_rect,
                        w,
                    ) && e.where_@ == "ResolveCropRectScreen"@
                    &&& final(img)@ == m1
                },
                Some(c) => match crop_spec(c, m1) {
                    None => {
                        &&& r matches Err(e) && e.message@ == "crop does not overlap image"@
                            && e.where_@ == "CropImageInPlace"@
                        &&& final(img)@ == m1
                    },
                    Some(m2) => {
                        &&& final(img)@ == m2
                        &&& r == Ok::<CropRect, ErrorInfo>(
                            CropRect { x: m2.origin_x, y: m2.origin_y, w: m2.width, h: m2.height },
                        )
                    },
                },
            }
        }),
{
    if cap.force_alpha_255 {
        force_alpha(img);
    }
    let img_rect = Rect {
        left: img.origin_x,
        top: img.origin_y,
        right: img.origin_x + img.width,
        bottom: img.origin_y + img.height,
    };
    let crop_rect = match resolve_crop_rect_screen(
        cap.crop_mode,
        cap.crop_rect,
        window,
        img_rect,
        cap.pad,
    ) {
        Ok(c) => c,
        Err(e) => {
            return Err(e);
        },
    };
    match crop_image_in_place(crop_rect, img) {
        Ok(()) => {},
        Err(e) => {
            return Err(e);
        },
    }
    Ok(CropRect { x: img.origin_x, y: img.origin_y, w: img.width, h: img.height })
}

/// The method captures a window (its name mentions `window`).
pub open spec fn method_needs_window(method: Seq<char>) -> bool {
    seq_contains(method, "window"@)
}

/// The method captures a monitor (its name mentions `monitor`).
pub open spec fn method_uses_monitor(method: Seq<char>) -> bool {
    seq_contains(method, "monitor"@)
}

/// First step of target resolution: a window method needs a window target;
/// with a window target the window is looked up among `windows` (see
/// [`resolve_window_target`]); with a screen target there is no window.
pub fn resolve_window_for_capture(
    cap: &CapOptions,
    windows: &Vec<WindowInfo>,
    foreground: isize,
    ancestors: &Vec<isize>,
) -> (r: Result<Option<(WindowInfo, String)>, ErrorInfo>)
    requires
        ancestors@.len() == windows@.len(),
    ensures
        method_needs_window(cap.method@) && cap.target != TargetType::Window ==> (r matches Err(e)
            && run_error(e, window_target_message(cap.method@))),
        !(method_needs_window(cap.method@) && cap.target != TargetType::Window) ==> {
            if cap.target == TargetType::Window {
                ||| (r matches Ok(Some(p)) && window_lookup(
                    Ok(p),
                    cap.window_query,
                    windows@,
                    foreground,
                    ancestors@,
                ))
                ||| (r matches Err(e) && window_lookup(
                    Err(e),
                    cap.window_query,
                    windows@,
                    foreground,
                    ancestors@,
                ))
            } else {
                r matches Ok(None)
            }
        },
{
    let needs_window = str_contains(cap.method.as_str(), "window");
    if needs_window && cap.target != TargetType::Window {
        let mut m = "method '".to_owned();
        m.append(cap.method.as_str());
        m.append("' requires --target window");
        return Err(
            ErrorInfo { message: m, where_: "RunCap".to_owned(), hresult: None, win32_error: None },
        );
    }
    if cap.target == TargetType::Window {
        match resolve_window_target(&cap.window_query, windows, foreground, ancestors) {
            Ok(p) => Ok(Some(p)),
            Err(e) => Err(e),
        }
    } else {
        Ok(None)
    }
}

/// The first monitor with the given handle.
pub open spec fn monitor_with_handle(ms: Seq<MonitorInfo>, h: isize) -> Option<MonitorInfo>
    decreases ms.len(),
{
    if ms.len() == 0 {
        None
    } else if ms[0].hmon == h {
        Some(ms[0])
    } else {
        monitor_with_handle(ms.drop_first(), h)
    }
}

/// The first monitor with handle `h`.
fn find_monitor_by_handle(monitors: &Vec<MonitorInfo>, h: isize) -> (r: Option<MonitorInfo>)
    ensures
        r == monitor_with_handle(monitors@, h),
{
    let ghost ms = monitors@;
    assert(ms.subrange(0, ms.len() as int) == ms);
    let mut i: usize = 0;
    while i < monitors.len()
        invariant
            i <= ms.len(),
            ms == monitors@,
            monitor_with_handle(ms, h) == monitor_with_handle(ms.subrange(i as int, ms.len() as int), h),
        decreases monitors.len() - i,
    {
        assert(ms.subrange(i as int, ms.len() as int).drop_first() == ms.subrange(
            i + 1,
            ms.len() as int,
        ));
        if monitors[i].hmon == h {
            let m = monitors[i].clone();
            assert(ms.subrange(i as int, ms.len() as int)[0] == m);
            return Some(m);
        }
        i = i + 1;
    }
    None
}

/// The monitor and screen rectangle a capture covers, before the fallback
/// to the window rectangle; `None` when the requested monitor is missing.
pub open spec fn screen_choice(
    cap: CapOptions,
    window: Option<WindowInfo>,
    monitors: Seq<MonitorInfo>,
    virtual_screen: Rect,
    window_monitor: isize,
) -> Option<(Option<MonitorInfo>, Rect)> {
    let none = Rect { left: 0, top: 0, right: 0, bottom: 0 };
    if !(cap.target == TargetType::Screen || method_uses_monitor(cap.method@)) {
        Some((None, none))
    } else if cap.screen_query.virtual_screen {
        Some((None, virtual_screen))
    } else {
        match cap.screen_query.monitor {
            Some(token) => match find_monitor_spec(monitors, token@) {
                Some(m) => Some((Some(m), m.desktop)),
                None => None,
            },
            None => if window is Some {
                match monitor_with_handle(monitors, window_monitor) {
                    Some(m) => Some((Some(m), m.desktop)),
                    None => Some((None, none)),
                }
            } else {
                Some((None, none))
            },
        }
    }
}

/// The monitor and screen rectangle a capture covers: an invalid rectangle
/// falls back to the window rectangle when there is a window.
pub open spec fn capture_area_spec(
    cap: CapOptions,
    window: Option<WindowInfo>,
    monitors: Seq<MonitorInfo>,
    virtual_screen: Rect,
    window_monitor: isize,
) -> Option<(Option<MonitorInfo>, Rect)> {
    match screen_choice(cap, window, monitors, virtual_screen, window_monitor) {
        Some((m, rect)) => Some(
            (
                m,
                match window {
                    Some(w) => if rect.spec_is_valid() {
                        rect
                    } else {
                        w.rect
                    },
                    None => rect,
                },
            ),
        ),
        None => None,
    }
}

/// Second step of target resolution: the monitor and the screen rectangle
/// to capture. A screen target or monitor method uses the virtual screen,
/// the monitor named by `--monitor`, or the monitor holding the window
/// (`window_monitor` is that monitor's handle); an invalid rectangle falls
/// back to the window rectangle.
pub fn select_capture_area(
    cap: &CapOptions,
    window: Option<&WindowInfo>,
    monitors: &Vec<MonitorInfo>,
    virtual_screen: Rect,
    window_monitor: isize,
) -> (r: Result<(Option<MonitorInfo>, Rect), ErrorInfo>)
    ensures
        ({
            let w = match window {
                Some(w) => Some(*w),
                None => None,
            };
            match capture_area_spec(*cap, w, monitors@, virtual_screen, window_monitor) {
                Some(v) => r == Ok::<(Option<MonitorInfo>, Rect), ErrorInfo>(v),
                None => r matches Err(e) && run_error(e, "monitor not found"@),
            }
        }),
{
    let mut monitor: Option<MonitorInfo> = None;
    let mut rect = Rect { left: 0, top: 0, right: 0, bottom: 0 };
    let uses_monitor = str_contains(cap.method.as_str(), "monitor");
    if cap.target == TargetType::Screen || uses_monitor {
        if cap.screen_query.virtual_screen {
            rect = virtual_screen;
        } else if let Some(token) = &cap.screen_query.monitor {
            match find_monitor_by_token(monitors, token.as_str()) {
                Some(m) => {
                    rect = m.desktop;
                    monitor = Some(m);
                },
                None => {
                    return Err(
                        ErrorInfo {
                            message: "monitor not found".to_owned(),
                            where_: "RunCap".to_owned(),
                            hresult: None,
                            win32_error: None,
                        },
                    );
                },
            }
        } else if window.is_some() {
            if let Some(m) = find_monitor_by_handle(monitors, window_monitor) {
                rect = m.desktop;
                monitor = Some(m);
            }
        }
    }
    if !rect.is_valid() {
        if let Some(w) = window {
            rect = w.rect;
        }
    }
    Ok((monitor, rect))
}

/// The virtual-screen rectangle from its origin and size.
pub fn virtual_screen_rect(left: i32, top: i32, width: i32, height: i32) -> (r: Rect)
    requires
        i32::MIN <= left + width <= i32::MAX,
        i32::MIN <= top + height <= i32::MAX,
    ensures
        r == (Rect {
            left,
            top,
            right: (left + width) as i32,
            bottom: (top + height) as i32,
        }),
{
    Rect { left, top, right: left + width, bottom: top + height }
}

/// Identifier the hotkey is registered under.
pub const HOTKEY_ID: i32 = 0x5343;

/// The hotkey window message.
pub const WM_HOTKEY: u32 = 0x0312;

/// What one message of the hotkey wait means. `gm` is the message-loop
/// result (-1 failure, 0 loop ended, otherwise a message arrived);
/// `last_error` is the thread's last error code, read on failure.
/// `None` means keep waiting.
pub fn hotkey_wait_step(gm: i32, message: u32, wparam: usize, last_error: u32) -> (r: Option<
    Result<(), ErrorInfo>,
>)
    ensures
        gm == -1 ==> (r matches Some(Err(e)) && e.message@ == "GetMessage failed"@ && e.where_@
            == "WaitForHotkey"@ && e.hresult is None && e.win32_error == Some(last_error)),
        gm == 0 ==> (r matches Some(Err(e)) && e.message@ == "message loop ended before hotkey"@
            && e.where_@ == "WaitForHotkey"@ && e.hresult is None && e.win32_error is None),
        gm != -1 && gm != 0 ==> if message == WM_HOTKEY && wparam as i32 == HOTKEY_ID {
            r == Some(Ok::<(), ErrorInfo>(()))
        } else {
            r is None
        },
{
    if gm == -1 {
        return Some(Err(ErrorInfo::with_win32("GetMessage failed", "WaitForHotkey", last_error)));
    }
    if gm == 0 {
        return Some(Err(ErrorInfo::new("message loop ended before hotkey", "WaitForHotkey")));
    }
    if message == WM_HOTKEY && wparam as i32 == HOTKEY_ID {
        return Some(Ok(()));
    }
    None
}

/// The command name a failure report carries when one is printed: JSON
/// output, or any `cap` failure, prints a report (`cap` or `list`).
pub fn failure_report_command(json: bool, command: CommandType) -> (r: Option<&'static str>)
    ensures
        (json || command == CommandType::Cap) <==> r is Some,
        r matches Some(s) ==> s@ == if command == CommandType::Cap {
            "cap"@
        } else {
            "list"@
        },
{
    if json || command == CommandType::Cap {
        if command == CommandType::Cap {
            Some("cap")
        } else {
            Some("list")
        }
    } else {
        None
    }
}

/// `1` for true, `0` for false.
pub open spec fn flag_text(b: bool) -> Seq<char> {
    if b {
        "1"@
    } else {
        "0"@
    }
}

fn flag(b: bool) -> (r: &'static str)
    ensures
        r@ == flag_text(b),
{
    if b {
        "1"
    } else {
        "0"
    }
}

fn push_decimal(s: &mut String, n: i64)
    ensures
        final(s)@ == old(s)@ + decimal_text(n as int),
{
    let t = i64_to_string(n);
    s.append(t.as_str());
}

/// The text line of one window in `list windows` (the handle printed as
/// an unsigned number).
pub open spec fn window_line_spec(w: WindowInfo) -> Seq<char> {
    "hwnd="@ + decimal_digits((w.hwnd as u64) as nat) + " pid="@ + decimal_text(w.pid as int)
        + " title="@ + w.title@ + " class="@ + w.class_name@ + " rect="@ + decimal_text(
        w.rect.left as int,
    ) + ","@ + decimal_text(w.rect.top as int) + ","@ + decimal_text(w.rect.right as int) + ","@
        + decimal_text(w.rect.bottom as int) + " visible="@ + flag_text(w.visible) + " iconic="@
        + flag_text(w.iconic) + " cloaked="@ + flag_text(w.cloaked)
}

/// Formats one window for `list windows`.
pub fn window_line(w: &WindowInfo) -> (r: String)
    ensures
        r@ == window_line_spec(*w),
{
    let mut s = "hwnd=".to_owned();
    let h = decimal_chars(w.hwnd as u64);
    let hs = string_from_chars(&h);
    s.append(hs.as_str());
    s.append(" pid=");
    push_decimal(&mut s, w.pid as i64);
    s.append(" title=");
    s.append(w.title.as_str());
    s.append(" class=");
    s.append(w.class_name.as_str());
    s.append(" rect=");
    push_decimal(&mut s, w.rect.left as i64);
    s.append(",");
    push_decimal(&mut s, w.rect.top as i64);
    s.append(",");
    push_decimal(&mut s, w.rect.right as i64);
    s.append(",");
    push_decimal(&mut s, w.rect.bottom as i64);
    s.append(" visible=");
    s.append(flag(w.visible));
    s.append(" iconic=");
    s.append(flag(w.iconic));
    s.append(" cloaked=");
    s.append(flag(w.cloaked));
    s
}

/// The text line of one monitor in `list monitors`.
pub open spec fn monitor_line_spec(m: MonitorInfo) -> Seq<char> {
    "index="@ + decimal_text(m.index as int) + " name="@ + m.name@ + " rect="@ + decimal_text(
        m.desktop.left as int,
    ) + ","@ + decimal_text(m.desktop.top as int) + ","@ + decimal_text(m.desktop.right as int)
        + ","@ + decimal_text(m.desktop.bottom as int) + " primary="@ + flag_text(m.primary)
}

/// Formats one monitor for `list monitors`.
pub fn monitor_line(m: &MonitorInfo) -> (r: String)
    ensures
        r@ == monitor_line_spec(*m),
{
    let mut s = "index=".to_owned();
    push_decimal(&mut s, m.index as i64);
    s.append(" name=");
    s.append(m.name.as_str());
    s.append(" rect=");
    push_decimal(&mut s, m.desktop.left as i64);
    s.append(",");
    push_decimal(&mut s, m.desktop.top as i64);
    s.append(",");
    push_decimal(&mut s, m.desktop.right as i64);
    s.append(",");
    push_decimal(&mut s, m.desktop.bottom as i64);
    s.append(" primary=");
    s.append(flag(m.primary));
    s
}

} // verus!
