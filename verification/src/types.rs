//! Shared data structures. Window and monitor handles are kept as `isize`
//! so the values stay plain data; the Win32 layer converts at its call sites.

use vstd::prelude::*;

use crate::number::{decimal_text, hex8, hex_digits, i64_to_string};
use crate::text::string_from_chars;

verus! {

/// Screen rectangle, `right`/`bottom` exclusive.
#[derive(Clone, Copy, Debug, PartialEq, Eq, Structural)]
pub struct Rect {
    pub left: i32,
    pub top: i32,
    pub right: i32,
    pub bottom: i32,
}

impl Rect {
    /// Horizontal extent as a mathematical integer.
    pub open spec fn spec_width(self) -> int {
        self.right - self.left
    }

    /// Vertical extent as a mathematical integer.
    pub open spec fn spec_height(self) -> int {
        self.bottom - self.top
    }

    /// A rectangle is valid when it has a positive width and height.
    pub open spec fn spec_is_valid(self) -> bool {
        self.spec_width() > 0 && self.spec_height() > 0
    }

    /// True when `other` lies inside `self`.
    pub open spec fn contains_rect(self, other: Rect) -> bool {
        self.left <= other.left && self.top <= other.top && other.right <= self.right
            && other.bottom <= self.bottom
    }

    pub fn width(&self) -> (w: i32)
        requires
            i32::MIN <= self.spec_width() <= i32::MAX,
        ensures
            w == self.spec_width(),
    {
        self.right - self.left
    }

    pub fn height(&self) -> (h: i32)
        requires
            i32::MIN <= self.spec_height() <= i32::MAX,
        ensures
            h == self.spec_height(),
    {
        self.bottom - self.top
    }

    pub fn is_valid(&self) -> (b: bool)
        ensures
            b == self.spec_is_valid(),
    {
        self.right > self.left && self.bottom > self.top
    }
}

impl Default for Rect {
    fn default() -> (r: Self)
        ensures
            r == (Rect { left: 0, top: 0, right: 0, bottom: 0 }),
    {
        Rect { left: 0, top: 0, right: 0, bottom: 0 }
    }
}

/// Crop rectangle given as origin and size.
#[derive(Clone, Copy, Debug, PartialEq, Eq, Structural)]
pub struct CropRect {
    pub x: i32,
    pub y: i32,
    pub w: i32,
    pub h: i32,
}

impl Default for CropRect {
    fn default() -> (r: Self)
        ensures
            r == (CropRect { x: 0, y: 0, w: 0, h: 0 }),
    {
        CropRect { x: 0, y: 0, w: 0, h: 0 }
    }
}

/// Padding added around a crop base rectangle (left, top, right, bottom).
#[derive(Clone, Copy, Debug, PartialEq, Eq, Structural)]
pub struct Pad {
    pub l: i32,
    pub t: i32,
    pub r: i32,
    pub b: i32,
}

impl Default for Pad {
    fn default() -> (p: Self)
        ensures
            p == (Pad { l: 0, t: 0, r: 0, b: 0 }),
    {
        Pad { l: 0, t: 0, r: 0, b: 0 }
    }
}

/// An error with the place it arose and, when known, the HRESULT or Win32
/// error code.
#[derive(Debug)]
pub struct ErrorInfo {
    pub message: String,
    pub where_: String,
    pub hresult: Option<u32>,
    pub win32_error: Option<u32>,
}

impl ErrorInfo {
    pub fn new(message: &str, where_: &str) -> (e: Self)
        ensures
            e.message@ == message@,
            e.where_@ == where_@,
            e.hresult is None,
            e.win32_error is None,
    {
        ErrorInfo {
            message: message.to_owned(),
            where_: where_.to_owned(),
            hresult: None,
            win32_error: None,
        }
    }

    pub fn with_hresult(message: &str, where_: &str, hr: u32) -> (e: Self)
        ensures
            e.message@ == message@,
            e.where_@ == where_@,
            e.hresult == Some(hr),
            e.win32_error is None,
    {
        let mut e = Self::new(message, where_);
        e.hresult = Some(hr);
        e
    }

    pub fn with_win32(message: &str, where_: &str, code: u32) -> (e: Self)
        ensures
            e.message@ == message@,
            e.where_@ == where_@,
            e.hresult is None,
            e.win32_error == Some(code),
    {
        let mut e = Self::new(message, where_);
        e.win32_error = Some(code);
        e
    }
}

/// `0x` and eight upper-case hexadecimal digits, the form HRESULT codes
/// are reported in.
pub open spec fn hresult_text_spec(hr: u32) -> Seq<char> {
    "0x"@ + hex_digits(hr as nat, 8)
}

/// Formats an HRESULT code as `0x` and eight upper-case hexadecimal digits.
pub fn hresult_text(hr: u32) -> (r: String)
    ensures
        r@ == hresult_text_spec(hr),
{
    let digits = hex8(hr);
    let mut s = "0x".to_owned();
    let d = string_from_chars(&digits);
    s.append(d.as_str());
    s
}

impl ErrorInfo {
    /// The text of the error: `<message> (<where>)`, then
    /// ` hresult=0x<code>` and ` win32_error=<code>` when known.
    pub open spec fn describe_spec(self) -> Seq<char> {
        self.message@ + " ("@ + self.where_@ + ")"@ + (match self.hresult {
            Some(hr) => " hresult="@ + hresult_text_spec(hr),
            None => Seq::empty(),
        }) + (match self.win32_error {
            Some(code) => " win32_error="@ + decimal_text(code as int),
            None => Seq::empty(),
        })
    }

    /// The error as shown to the user.
    pub fn describe(&self) -> (r: String)
        ensures
            r@ == self.describe_spec(),
    {
        let mut s = self.message.clone();
        s.append(" (");
        s.append(self.where_.as_str());
        s.append(")");
        if let Some(hr) = self.hresult {
            s.append(" hresult=");
            let h = hresult_text(hr);
            s.append(h.as_str());
        }
        if let Some(code) = self.win32_error {
            s.append(" win32_error=");
            let c = i64_to_string(code as i64);
            s.append(c.as_str());
        }
        s
    }
}

impl Clone for ErrorInfo {
    fn clone(&self) -> (e: Self)
        ensures
            e == *self,
    {
        ErrorInfo {
            message: self.message.clone(),
            where_: self.where_.clone(),
            hresult: self.hresult,
            win32_error: self.win32_error,
        }
    }
}

impl Default for ErrorInfo {
    fn default() -> (e: Self)
        ensures
            e.message@ == Seq::<char>::empty(),
            e.where_@ == Seq::<char>::empty(),
            e.hresult is None,
            e.win32_error is None,
    {
        ErrorInfo { message: String::new(), where_: String::new(), hresult: None, win32_error: None }
    }
}

/// BGRA image with its screen origin. Row `y` starts at byte
/// `y * row_pitch`; each row holds `width * 4` pixel bytes.
#[derive(Debug)]
pub struct ImageBuffer {
    pub width: i32,
    pub height: i32,
    pub row_pitch: i32,
    pub origin_x: i32,
    pub origin_y: i32,
    pub bgra: Vec<u8>,
}

/// Mathematical model of an [`ImageBuffer`].
pub ghost struct ImageModel {
    pub width: i32,
    pub height: i32,
    pub row_pitch: i32,
    pub origin_x: i32,
    pub origin_y: i32,
    pub bytes: Seq<u8>,
}

impl View for ImageBuffer {
    type V = ImageModel;

    open spec fn view(&self) -> ImageModel {
        ImageModel {
            width: self.width,
            height: self.height,
            row_pitch: self.row_pitch,
            origin_x: self.origin_x,
            origin_y: self.origin_y,
            bytes: self.bgra@,
        }
    }
}

impl ImageModel {
    /// Every row lies inside the buffer and the image's screen rectangle is
    /// representable.
    pub open spec fn well_formed(self) -> bool {
        &&& 0 <= self.width
        &&& 0 <= self.height
        &&& self.width * 4 <= self.row_pitch
        &&& self.height == 0 || (self.height - 1) * self.row_pitch + self.width * 4
            <= self.bytes.len()
        &&& self.origin_x + self.width <= i32::MAX
        &&& self.origin_y + self.height <= i32::MAX
    }

    /// The screen rectangle covered by the image.
    pub open spec fn screen_rect(self) -> Rect {
        Rect {
            left: self.origin_x,
            top: self.origin_y,
            right: (self.origin_x + self.width) as i32,
            bottom: (self.origin_y + self.height) as i32,
        }
    }

    /// Rows are stored without padding.
    pub open spec fn tightly_packed(self) -> bool {
        self.row_pitch == self.width * 4
    }

    /// Byte offset of channel `c` of pixel `(x, y)`.
    pub open spec fn offset(self, x: int, y: int, c: int) -> int {
        y * self.row_pitch + x * 4 + c
    }
}

impl ImageBuffer {
    /// Whether the buffer holds every row and its screen rectangle is
    /// representable (see [`ImageModel::well_formed`]).
    pub fn is_well_formed(&self) -> (b: bool)
        ensures
            b == self@.well_formed(),
    {
        if self.width < 0 || self.height < 0 {
            return false;
        }
        if (self.width as i64) * 4 > self.row_pitch as i64 {
            return false;
        }
        if self.origin_x as i64 + self.width as i64 > i32::MAX as i64 || self.origin_y as i64
            + self.height as i64 > i32::MAX as i64 {
            return false;
        }
        if self.height == 0 {
            return true;
        }
        let h = self.height as i128;
        let p = self.row_pitch as i128;
        assert((h - 1) * p <= 0x7fff_ffffi128 * 0x7fff_ffffi128) by (nonlinear_arith)
            requires
                1 <= h <= 0x7fff_ffff,
                0 <= p <= 0x7fff_ffff,
        ;
        assert((h - 1) * p >= 0) by (nonlinear_arith)
            requires
                1 <= h,
                0 <= p,
        ;
        (h - 1) * p + (self.width as i128) * 4 <= self.bgra.len() as i128
    }
}

impl Clone for ImageBuffer {
    fn clone(&self) -> (r: Self)
        ensures
            r@ == self@,
    {
        ImageBuffer {
            width: self.width,
            height: self.height,
            row_pitch: self.row_pitch,
            origin_x: self.origin_x,
            origin_y: self.origin_y,
            bgra: self.bgra.clone(),
        }
    }
}

impl Default for ImageBuffer {
    fn default() -> (r: Self)
        ensures
            r@.width == 0 && r@.height == 0 && r@.row_pitch == 0,
            r@.origin_x == 0 && r@.origin_y == 0,
            r@.bytes == Seq::<u8>::empty(),
    {
        ImageBuffer { width: 0, height: 0, row_pitch: 0, origin_x: 0, origin_y: 0, bgra: Vec::new() }
    }
}

/// One top-level window.
#[derive(Debug)]
pub struct WindowInfo {
    pub hwnd: isize,
    pub pid: u32,
    pub title: String,
    pub class_name: String,
    pub rect: Rect,
    pub client_rect_screen: Rect,
    pub dwm_frame_rect: Rect,
    pub visible: bool,
    pub iconic: bool,
    pub cloaked: bool,
}

impl Clone for WindowInfo {
    fn clone(&self) -> (w: Self)
        ensures
            w == *self,
    {
        WindowInfo {
            hwnd: self.hwnd,
            pid: self.pid,
            title: self.title.clone(),
            class_name: self.class_name.clone(),
            rect: self.rect,
            client_rect_screen: self.client_rect_screen,
            dwm_frame_rect: self.dwm_frame_rect,
            visible: self.visible,
            iconic: self.iconic,
            cloaked: self.cloaked,
        }
    }
}

/// One display monitor; `index` is its enumeration order.
#[derive(Debug)]
pub struct MonitorInfo {
    pub hmon: isize,
    pub index: i32,
    pub name: String,
    pub desktop: Rect,
    pub primary: bool,
}

impl Clone for MonitorInfo {
    fn clone(&self) -> (m: Self)
        ensures
            m == *self,
    {
        MonitorInfo {
            hmon: self.hmon,
            index: self.index,
            name: self.name.clone(),
            desktop: self.desktop,
            primary: self.primary,
        }
    }
}

#[derive(Clone, Copy, Debug, PartialEq, Eq, Structural)]
pub enum CommandType {
    Cap,
    ListWindows,
    ListMonitors,
}

#[derive(Clone, Copy, Debug, PartialEq, Eq, Structural)]
pub enum DpiMode {
    Auto,
    PerMonitorV2,
    System,
}

#[derive(Clone, Copy, Debug, PartialEq, Eq, Structural)]
pub enum TargetType {
    Window,
    Screen,
}

#[derive(Clone, Copy, Debug, PartialEq, Eq, Structural)]
pub enum CropMode {
    NoCrop,
    Window,
    Client,
    DwmFrame,
    Manual,
}

/// Log severities, least severe first.
#[derive(Clone, Copy, Debug, PartialEq, Eq, Structural)]
pub enum LogLevel {
    Trace,
    Debug,
    Info,
    Warn,
    Error,
}

impl LogLevel {
    /// Position in the severity order (`Trace` is 0).
    pub open spec fn spec_rank(self) -> u8 {
        match self {
            LogLevel::Trace => 0,
            LogLevel::Debug => 1,
            LogLevel::Info => 2,
            LogLevel::Warn => 3,
            LogLevel::Error => 4,
        }
    }

    pub fn rank(self) -> (r: u8)
        ensures
            r == self.spec_rank(),
    {
        match self {
            LogLevel::Trace => 0,
            LogLevel::Debug => 1,
            LogLevel::Info => 2,
            LogLevel::Warn => 3,
            LogLevel::Error => 4,
        }
    }
}

/// Options shared by every command.
#[derive(Debug)]
pub struct CommonOptions {
    pub log_dir: String,
    pub log_level: LogLevel,
    pub json: bool,
    pub timeout_ms: i32,
    pub retry: i32,
    pub overwrite: bool,
    pub dpi_mode: DpiMode,
}

impl Default for CommonOptions {
    fn default() -> (o: Self)
        ensures
            o.log_dir@ == "./logs"@,
            o.log_level == LogLevel::Info,
            !o.json,
            o.timeout_ms == 700,
            o.retry == 0,
            !o.overwrite,
            o.dpi_mode == DpiMode::PerMonitorV2,
    {
        CommonOptions {
            log_dir: "./logs".to_owned(),
            log_level: LogLevel::Info,
            json: false,
            timeout_ms: 700,
            retry: 0,
            overwrite: false,
            dpi_mode: DpiMode::PerMonitorV2,
        }
    }
}

/// How the target window is looked up.
#[derive(Debug)]
pub struct TargetWindowQuery {
    pub hwnd: Option<u64>,
    pub pid: Option<i32>,
    pub foreground: bool,
    pub title: Option<String>,
    pub class_name: Option<String>,
}

impl Default for TargetWindowQuery {
    fn default() -> (q: Self)
        ensures
            q.hwnd is None && q.pid is None && !q.foreground,
            q.title is None && q.class_name is None,
    {
        TargetWindowQuery { hwnd: None, pid: None, foreground: false, title: None, class_name: None }
    }
}

/// How the target screen area is looked up.
#[derive(Debug)]
pub struct TargetScreenQuery {
    /// Monitor index as a string, or "primary".
    pub monitor: Option<String>,
    pub virtual_screen: bool,
}

impl Default for TargetScreenQuery {
    fn default() -> (q: Self)
        ensures
            q.monitor is None && !q.virtual_screen,
    {
        TargetScreenQuery { monitor: None, virtual_screen: false }
    }
}

/// Options of the `cap` command.
#[derive(Debug)]
pub struct CapOptions {
    pub method: String,
    pub target: TargetType,
    pub out_path: String,
    pub hotkey_enabled: bool,
    pub hotkey_spec: String,
    pub hotkey_modifiers: u32,
    pub hotkey_vk: u32,
    pub window_query: TargetWindowQuery,
    pub screen_query: TargetScreenQuery,
    pub crop_mode: CropMode,
    pub crop_rect: Option<CropRect>,
    pub pad: Pad,
    pub force_alpha_255: bool,
    /// Whether the mouse cursor is captured (excluded by default).
    pub include_cursor: bool,
}

impl CapOptions {
    /// The options of a command that captures nothing: every field empty,
    /// off or at its default.
    pub open spec fn is_default(&self) -> bool {
        &&& self.method@ == Seq::<char>::empty()
        &&& self.target == TargetType::Window
        &&& self.out_path@ == Seq::<char>::empty()
        &&& !self.hotkey_enabled
        &&& self.hotkey_spec@ == Seq::<char>::empty()
        &&& self.hotkey_modifiers == 0 && self.hotkey_vk == 0
        &&& self.window_query.hwnd is None && self.window_query.pid is None
        &&& !self.window_query.foreground
        &&& self.window_query.title is None && self.window_query.class_name is None
        &&& self.screen_query.monitor is None && !self.screen_query.virtual_screen
        &&& self.crop_mode == CropMode::NoCrop
        &&& self.crop_rect is None
        &&& self.pad == (Pad { l: 0, t: 0, r: 0, b: 0 })
        &&& !self.force_alpha_255
        &&& !self.include_cursor
    }
}

impl Default for CapOptions {
    fn default() -> (o: Self)
        ensures
            o.is_default(),
    {
        CapOptions {
            method: String::new(),
            target: TargetType::Window,
            out_path: String::new(),
            hotkey_enabled: false,
            hotkey_spec: String::new(),
            hotkey_modifiers: 0,
            hotkey_vk: 0,
            window_query: TargetWindowQuery::default(),
            screen_query: TargetScreenQuery::default(),
            crop_mode: CropMode::NoCrop,
            crop_rect: None,
            pad: Pad::default(),
            force_alpha_255: false,
            include_cursor: false,
        }
    }
}

/// Everything a capture backend needs to know about its target.
pub struct CaptureContext<'a> {
    pub cap: &'a CapOptions,
    pub common: &'a CommonOptions,
    pub window: Option<WindowInfo>,
    pub monitor: Option<MonitorInfo>,
    pub capture_rect_screen: Rect,
}

} // verus!
