//! Decisions of the Windows.Graphics.Capture backend. Methods: `wgc-window`
//! (window target) and `wgc-monitor` (monitor target). Frames are cropped to
//! the frame's ContentSize, and up to `MAX_FRAMES` frames are received until
//! one passes the usable-frame heuristic (transparent ratio < 0.98 and black
//! ratio < 0.98). The capture loop is a state machine: the caller performs
//! each requested action against the WGC session and reports what happened.

use vstd::prelude::*;

use crate::image_stats::{
    black_measure, compute_frame_counts, pixel_count, stats_readable, total, transparent_measure,
};
use crate::text::str_eq;
use crate::types::{ErrorInfo, ImageBuffer, ImageModel, MonitorInfo, Rect, WindowInfo};

verus! {

/// Frames received at most per capture.
pub const MAX_FRAMES: usize = 5;

/// True when `method` targets a window (as opposed to a monitor).
pub fn is_wgc_window_method(method: &str) -> (r: bool)
    ensures
        r == (method@ == "wgc-window"@),
{
    str_eq(method, "wgc-window")
}

/// The heuristic: fewer than 98% of the pixels are transparent and fewer
/// than 98% are black. An empty image counts as usable (both ratios are 0).
pub open spec fn usable_frame_spec(m: ImageModel) -> bool {
    let p = pixel_count(m);
    p == 0 || (50 * total(m, transparent_measure()) < 49 * p && 50 * total(m, black_measure()) < 49
        * p)
}

/// Heuristic filter for WGC warm-up frames (mostly black or transparent).
pub fn is_probably_usable_frame(img: &ImageBuffer) -> (r: bool)
    requires
        stats_readable(img@),
    ensures
        r == usable_frame_spec(img@),
{
    let c = compute_frame_counts(img);
    if c.pixels == 0 {
        return true;
    }
    (c.transparent as u128) * 50 < (c.pixels as u128) * 49 && (c.black as u128) * 50 < (c.pixels
        as u128) * 49
}

/// Screen origin assigned to captured frames: the window's DWM frame for
/// `wgc-window` (when a window is known), the capture rectangle otherwise.
pub fn frame_origin(method: &str, window: Option<&WindowInfo>, capture_rect_screen: Rect) -> (r:
    Rect)
    ensures
        r == (if method@ == "wgc-window"@ && window is Some {
            window.unwrap().dwm_frame_rect
        } else {
            capture_rect_screen
        }),
{
    if is_wgc_window_method(method) {
        match window {
            Some(w) => w.dwm_frame_rect,
            None => capture_rect_screen,
        }
    } else {
        capture_rect_screen
    }
}

/// Region of a frame texture to copy: the texture clipped to the frame's
/// reported content size, placed at `origin`.
pub struct FrameRegion {
    pub width: u32,
    pub height: u32,
    pub rect: Rect,
}

/// Computes the copy region of a captured frame (WGC pads the texture to the
/// swapchain size, so the content can be smaller than the texture). Errors
/// on a non-positive content size.
pub fn frame_region(
    origin: Rect,
    texture_width: u32,
    texture_height: u32,
    content_width: i32,
    content_height: i32,
) -> (res: Result<FrameRegion, ErrorInfo>)
    requires
        content_width > 0 && content_height > 0 ==> {
            let w = if texture_width <= content_width {
                texture_width as int
            } else {
                content_width as int
            };
            let h = if texture_height <= content_height {
                texture_height as int
            } else {
                content_height as int
            };
            origin.left + w <= i32::MAX && origin.top + h <= i32::MAX
        },
    ensures
        content_width <= 0 || content_height <= 0 <==> res is Err,
        res matches Err(e) ==> (e.message@ == "invalid WGC ContentSize"@ && e.where_@
            == "CopyFrameToImage"@),
        res matches Ok(r) ==> {
            &&& r.width == (if texture_width <= content_width {
                texture_width as int
            } else {
                content_width as int
            })
            &&& r.height == (if texture_height <= content_height {
                texture_height as int
            } else {
                content_height as int
            })
            &&& r.rect == (Rect {
                left: origin.left,
                top: origin.top,
                right: (origin.left + r.width) as i32,
                bottom: (origin.top + r.height) as i32,
            })
        },
{
    if content_width <= 0 || content_height <= 0 {
        return Err(ErrorInfo::new("invalid WGC ContentSize", "CopyFrameToImage"));
    }
    let cw = content_width as u32;
    let ch = content_height as u32;
    let width = if texture_width <= cw {
        texture_width
    } else {
        cw
    };
    let height = if texture_height <= ch {
        texture_height
    } else {
        ch
    };
    let rect = Rect {
        left: origin.left,
        top: origin.top,
        right: origin.left + width as i32,
        bottom: origin.top + height as i32,
    };
    Ok(FrameRegion { width, height, rect })
}

/// What to create the WGC capture item from.
#[derive(Clone, Copy, Debug, PartialEq, Eq, Structural)]
pub enum CaptureItemSource {
    Window(isize),
    Monitor(isize),
}

/// How to set up a WGC capture session.
#[derive(Clone, Copy, Debug, PartialEq, Eq, Structural)]
pub struct WgcPlan {
    pub item: CaptureItemSource,
    /// Cursor exclusion is requested only when the cursor is not wanted: WGC
    /// includes it by default and the property is missing on older builds.
    pub exclude_cursor: bool,
}

/// Chooses the capture item for `method` and whether to exclude the cursor.
pub fn plan_wgc_capture(
    method: &str,
    window: Option<&WindowInfo>,
    monitor: Option<&MonitorInfo>,
    include_cursor: bool,
) -> (res: Result<WgcPlan, ErrorInfo>)
    ensures
        method@ == "wgc-window"@ ==> match window {
            Some(w) => res == Ok::<WgcPlan, ErrorInfo>(
                WgcPlan { item: CaptureItemSource::Window(w.hwnd), exclude_cursor: !include_cursor },
            ),
            None => res matches Err(e) && e.message@ == "wgc-window needs window target"@
                && e.where_@ == "CaptureWithWgc"@,
        },
        method@ == "wgc-monitor"@ ==> match monitor {
            Some(m) => res == Ok::<WgcPlan, ErrorInfo>(
                WgcPlan { item: CaptureItemSource::Monitor(m.hmon), exclude_cursor: !include_cursor },
            ),
            None => res matches Err(e) && e.message@ == "wgc-monitor needs monitor target"@
                && e.where_@ == "CaptureWithWgc"@,
        },
        method@ != "wgc-window"@ && method@ != "wgc-monitor"@ ==> (res matches Err(e) && e.message@
            == "unknown wgc method"@ && e.where_@ == "CaptureWithWgc"@),
{
    proof {
        reveal_strlit("wgc-window");
        reveal_strlit("wgc-monitor");
        assert("wgc-window"@.len() == 10);
        assert("wgc-monitor"@.len() == 11);
        assert("wgc-window"@ != "wgc-monitor"@);
    }
    let item = if is_wgc_window_method(method) {
        match window {
            Some(w) => CaptureItemSource::Window(w.hwnd),
            None => {
                return Err(ErrorInfo::new("wgc-window needs window target", "CaptureWithWgc"));
            },
        }
    } else if str_eq(method, "wgc-monitor") {
        match monitor {
            Some(m) => CaptureItemSource::Monitor(m.hmon),
            None => {
                return Err(ErrorInfo::new("wgc-monitor needs monitor target", "CaptureWithWgc"));
            },
        }
    } else {
        return Err(ErrorInfo::new("unknown wgc method", "CaptureWithWgc"));
    };
    Ok(WgcPlan { item, exclude_cursor: !include_cursor })
}

/// What the capture loop asks the caller to do next.
#[derive(Clone, Copy, Debug, PartialEq, Eq, Structural)]
pub enum LoopAction {
    /// Wait for the next frame until the deadline.
    WaitForFrame,
    /// Recreate the frame pool at the given content size.
    RecreatePool { width: i32, height: i32 },
    /// Copy the frame that just arrived.
    CopyFrame,
    /// Stop and call [`CaptureLoop::finish`].
    Finish,
}

/// What happened when the caller performed the last action.
pub enum LoopEvent {
    /// The deadline had passed before waiting.
    DeadlineReached,
    /// The wait ended without a frame.
    NoFrame,
    /// A frame arrived; `content` is its ContentSize when it could be read.
    FrameArrived { content: Option<(i32, i32)> },
    /// The pool was recreated, or recreating it failed.
    PoolRecreated(Result<(), ErrorInfo>),
    /// The frame was copied into an image, or copying failed.
    FrameCopied(Result<ImageBuffer, ErrorInfo>),
}

/// State of the WGC frame loop.
pub struct CaptureLoop {
    /// Frames handled so far (each wait, recreate or copy outcome counts once).
    pub attempts: usize,
    pub pool_width: i32,
    pub pool_height: i32,
    /// Most recent successfully copied frame.
    pub best: Option<ImageBuffer>,
    /// Most recent copy or recreate failure.
    pub copy_err: Option<ErrorInfo>,
    /// Size requested by a pending pool recreation.
    pub pending_size: Option<(i32, i32)>,
    pub finished: bool,
}

impl CaptureLoop {
    /// Internal consistency: the attempt count never exceeds `MAX_FRAMES`,
    /// and every kept frame can be measured.
    pub open spec fn wf(&self) -> bool {
        &&& self.attempts <= MAX_FRAMES
        &&& !self.finished ==> self.attempts < MAX_FRAMES
        &&& self.best matches Some(b) ==> stats_readable(b@)
    }

    /// The action that follows a handled frame: another wait, or the end of
    /// the loop once `MAX_FRAMES` frames were handled.
    pub open spec fn after_attempt(attempts: int) -> LoopAction {
        if attempts < MAX_FRAMES {
            LoopAction::WaitForFrame
        } else {
            LoopAction::Finish
        }
    }

    /// A fresh loop for a pool created at `width` x `height`; its first
    /// action is [`LoopAction::WaitForFrame`].
    pub fn new(width: i32, height: i32) -> (s: Self)
        ensures
            s.wf(),
            s.attempts == 0,
            s.pool_width == width && s.pool_height == height,
            s.best is None && s.copy_err is None && s.pending_size is None,
            !s.finished,
    {
        CaptureLoop {
            attempts: 0,
            pool_width: width,
            pool_height: height,
            best: None,
            copy_err: None,
            pending_size: None,
            finished: false,
        }
    }

    fn count_attempt(&mut self) -> (a: LoopAction)
        requires
            old(self).attempts < MAX_FRAMES,
            !old(self).finished,
        ensures
            final(self).attempts == old(self).attempts + 1,
            final(self).finished == (final(self).attempts >= MAX_FRAMES),
            a == Self::after_attempt(final(self).attempts as int),
            final(self).pool_width == old(self).pool_width,
            final(self).pool_height == old(self).pool_height,
            final(self).best == old(self).best,
            final(self).copy_err == old(self).copy_err,
            final(self).pending_size == old(self).pending_size,
    {
        self.attempts = self.attempts + 1;
        if self.attempts < MAX_FRAMES {
            LoopAction::WaitForFrame
        } else {
            self.finished = true;
            LoopAction::Finish
        }
    }

    /// Advances the loop by one event and returns the next action. A frame
    /// whose content size differs from the pool size first has the pool
    /// recreated (and is not copied); a copied frame becomes the best frame,
    /// and the loop stops at once when it is usable.
    pub fn step(&mut self, event: LoopEvent) -> (a: LoopAction)
        requires
            old(self).wf(),
            !old(self).finished,
            event matches LoopEvent::FrameCopied(Ok(img)) ==> stats_readable(img@),
        ensures
            final(self).wf(),
            final(self).finished <==> a == LoopAction::Finish,
            match event {
                LoopEvent::DeadlineReached => {
                    &&& a == LoopAction::Finish
                    &&& final(self).attempts == old(self).attempts
                    &&& final(self).best == old(self).best
                    &&& final(self).copy_err == old(self).copy_err
                },
                LoopEvent::NoFrame => {
                    &&& final(self).attempts == old(self).attempts + 1
                    &&& a == Self::after_attempt(final(self).attempts as int)
                    &&& final(self).best == old(self).best
                    &&& final(self).copy_err == old(self).copy_err
                },
                LoopEvent::FrameArrived { content } => {
                    &&& final(self).attempts == old(self).attempts
                    &&& final(self).best == old(self).best
                    &&& final(self).copy_err == old(self).copy_err
                    &&& match content {
                        Some((w, h)) => if w != old(self).pool_width || h != old(self).pool_height {
                            a == (LoopAction::RecreatePool { width: w, height: h })
                                && final(self).pending_size == Some((w, h))
                        } else {
                            a == LoopAction::CopyFrame
                        },
                        None => a == LoopAction::CopyFrame,
                    }
                },
                LoopEvent::PoolRecreated(r) => {
                    &&& final(self).attempts == old(self).attempts + 1
                    &&& a == Self::after_attempt(final(self).attempts as int)
                    &&& final(self).best == old(self).best
                    &&& final(self).pending_size is None
                    &&& match r {
                        Ok(_) => {
                            &&& final(self).copy_err == old(self).copy_err
                            &&& (old(self).pending_size matches Some((w, h)) ==> final(self).pool_width
                                == w && final(self).pool_height == h)
                            &&& (old(self).pending_size is None ==> final(self).pool_width
                                == old(self).pool_width && final(self).pool_height
                                == old(self).pool_height)
                        },
                        Err(e) => {
                            &&& final(self).copy_err == Some(e)
                            &&& final(self).pool_width == old(self).pool_width
                            &&& final(self).pool_height == old(self).pool_height
                        },
                    }
                },
                LoopEvent::FrameCopied(r) => {
                    &&& final(self).pool_width == old(self).pool_width
                    &&& final(self).pool_height == old(self).pool_height
                    &&& match r {
                        Ok(img) => {
                            &&& final(self).best == Some(img)
                            &&& final(self).copy_err == old(self).copy_err
                            &&& final(self).attempts == old(self).attempts + 1
                            &&& if usable_frame_spec(img@) {
                                a == LoopAction::Finish
                            } else {
                                a == Self::after_attempt(final(self).attempts as int)
                            }
                        },
                        Err(e) => {
                            &&& final(self).best == old(self).best
                            &&& final(self).copy_err == Some(e)
                            &&& final(self).attempts == old(self).attempts + 1
                            &&& a == Self::after_attempt(final(self).attempts as int)
                        },
                    }
                },
            },
    {
        match event {
            LoopEvent::DeadlineReached => {
                self.finished = true;
                LoopAction::Finish
            },
            LoopEvent::NoFrame => self.count_attempt(),
            LoopEvent::FrameArrived { content } => match content {
                Some((w, h)) => {
                    if w != self.pool_width || h != self.pool_height {
                        self.pending_size = Some((w, h));
                        LoopAction::RecreatePool { width: w, height: h }
                    } else {
                        LoopAction::CopyFrame
                    }
                },
                None => LoopAction::CopyFrame,
            },
            LoopEvent::PoolRecreated(r) => {
                match r {
                    Ok(()) => {
                        if let Some((w, h)) = self.pending_size {
                            self.pool_width = w;
                            self.pool_height = h;
                        }
                    },
                    Err(e) => {
                        self.copy_err = Some(e);
                    },
                }
                self.pending_size = None;
                self.count_attempt()
            },
            LoopEvent::FrameCopied(r) => match r {
                Ok(img) => {
                    let usable = is_probably_usable_frame(&img);
                    self.best = Some(img);
                    let next = self.count_attempt();
                    if usable {
                        self.finished = true;
                        LoopAction::Finish
                    } else {
                        next
                    }
                },
                Err(e) => {
                    self.copy_err = Some(e);
                    self.count_attempt()
                },
            },
        }
    }

    /// The loop's result: the best frame if any was copied, else the last
    /// failure, else a timeout error.
    pub fn finish(self) -> (res: Result<ImageBuffer, ErrorInfo>)
        ensures
            match self.best {
                Some(b) => res == Ok::<ImageBuffer, ErrorInfo>(b),
                None => match self.copy_err {
                    Some(e) => res == Err::<ImageBuffer, ErrorInfo>(e),
                    None => res matches Err(e) && e.message@ == "WGC frame timeout"@ && e.where_@
                        == "CaptureWithWgc"@,
                },
            },
    {
        match self.best {
            Some(img) => Ok(img),
            None => match self.copy_err {
                Some(e) => Err(e),
                None => Err(ErrorInfo::new("WGC frame timeout", "CaptureWithWgc")),
            },
        }
    }
}

/// The loop never handles more than `MAX_FRAMES` frames: every step either
/// finishes the loop or leaves it with fewer than `MAX_FRAMES` attempts.
pub proof fn law_capture_loop_bounded(s: CaptureLoop)
    requires
        s.wf(),
    ensures
        s.attempts <= MAX_FRAMES,
        !s.finished ==> s.attempts < MAX_FRAMES,
{
}

} // verus!
