//! Decisions and text of the capture window: target and format choices,
//! list rows, the order of pickable windows, monitor selection after a
//! refresh, the control layout, and the command line of a capture.

use vstd::prelude::*;

use crate::encode_png::{normalize_path_separators, normalize_spec};
use crate::monitor_enum::{trim_chars, trim_spec};
use crate::number::{decimal_digits, decimal_text, decimal_chars, i64_to_string};
use crate::text::{chars_of, string_from_chars};
use crate::types::{MonitorInfo, Rect, WindowInfo};
use crate::util::{
    encode_utf16, last_sep, validate_output_path,
    validate_output_path_spec, wide_from_utf8,
};

verus! {

/// Output image formats offered for saving.
#[derive(Clone, Copy, Debug, PartialEq, Eq, Structural)]
pub enum ImageFormat {
    Png,
}

impl ImageFormat {
    /// File extension without the dot.
    pub open spec fn spec_extension(self) -> Seq<char> {
        match self {
            ImageFormat::Png => "png"@,
        }
    }

    /// File extension without the dot.
    pub fn extension(self) -> (r: &'static str)
        ensures
            r@ == self.spec_extension(),
    {
        match self {
            ImageFormat::Png => "png",
        }
    }

    /// The value of the command line's `--format`.
    pub fn as_str(self) -> (r: &'static str)
        ensures
            r@ == self.spec_extension(),
    {
        match self {
            ImageFormat::Png => "png",
        }
    }
}

impl Default for ImageFormat {
    fn default() -> (f: Self)
        ensures
            f == ImageFormat::Png,
    {
        ImageFormat::Png
    }
}

/// What the list shows and a capture targets.
#[derive(Clone, Copy, Debug, PartialEq, Eq, Structural)]
pub enum GuiTarget {
    Window,
    Monitor,
}

impl Default for GuiTarget {
    fn default() -> (t: Self)
        ensures
            t == GuiTarget::Window,
    {
        GuiTarget::Window
    }
}

/// Resolved capture target: a window handle or a monitor index.
#[derive(Clone, Copy, Debug, PartialEq, Eq, Structural)]
pub enum CaptureTarget {
    Window(usize),
    Monitor(i32),
}

impl CaptureTarget {
    pub open spec fn spec_method(self) -> Seq<char> {
        match self {
            CaptureTarget::Window(_) => "wgc-window"@,
            CaptureTarget::Monitor(_) => "wgc-monitor"@,
        }
    }

    /// The command line's `--method` for this target.
    pub fn method(&self) -> (r: &'static str)
        ensures
            r@ == self.spec_method(),
    {
        match self {
            CaptureTarget::Window(_) => "wgc-window",
            CaptureTarget::Monitor(_) => "wgc-monitor",
        }
    }
}

/// NUL-terminated UTF-16 text.
pub fn to_wide(s: &str) -> (r: Vec<u16>)
    ensures
        r@ == encode_utf16(s@).push(0u16),
{
    let mut v = wide_from_utf8(s);
    v.push(0);
    v
}

/// `len` zero units.
pub open spec fn zeros(len: nat) -> Seq<u16> {
    Seq::new(len, |i: int| 0u16)
}

/// The UTF-16 text of `s`, cut to at most `len - 1` units and padded with
/// NULs to exactly `len` units.
pub open spec fn wide_fixed_spec(s: Seq<char>, len: nat) -> Seq<u16> {
    let e = encode_utf16(s);
    let k = if e.len() > len - 1 {
        (len - 1) as nat
    } else {
        e.len()
    };
    e.take(k as int) + zeros((len - k) as nat)
}

/// NUL-padded wide buffer of fixed `len` for dialog structures.
pub fn to_wide_fixed(s: &str, len: usize) -> (r: Vec<u16>)
    requires
        len >= 1,
    ensures
        r@ == wide_fixed_spec(s@, len as nat),
        r@.len() == len,
{
    let v = wide_from_utf8(s);
    let k = if v.len() > len - 1 {
        len - 1
    } else {
        v.len()
    };
    let mut out: Vec<u16> = Vec::new();
    let mut i: usize = 0;
    while i < k
        invariant
            k <= v@.len(),
            i <= k,
            out@ == v@.take(i as int),
        decreases k - i,
    {
        out.push(v[i]);
        assert(v@.take(i + 1) == v@.take(i as int).push(v@[i as int]));
        i = i + 1;
    }
    while i < len
        invariant
            k <= i <= len,
            out@ == v@.take(k as int) + zeros((i - k) as nat),
        decreases len - i,
    {
        out.push(0);
        assert(zeros((i + 1 - k) as nat) == zeros((i - k) as nat).push(0u16));
        i = i + 1;
    }
    out
}

/// A window offered for capture: shown, not minimised, not cloaked, titled,
/// with a non-empty rectangle, and its own root (`root` is its root
/// ancestor).
pub open spec fn pickable_spec(w: WindowInfo, root: isize) -> bool {
    w.visible && !w.iconic && !w.cloaked && w.title@.len() > 0 && w.rect.spec_is_valid()
        && root == w.hwnd
}

/// Whether the window is offered for capture.
pub fn is_pickable(w: &WindowInfo, root: isize) -> (b: bool)
    ensures
        b == pickable_spec(*w, root),
{
    if !w.visible || w.iconic || w.cloaked || w.title.as_str().is_empty() {
        return false;
    }
    if !w.rect.is_valid() {
        return false;
    }
    root == w.hwnd
}

/// `<width>x<height>` of a rectangle.
pub open spec fn size_text(r: Rect) -> Seq<char> {
    decimal_text(r.spec_width()) + "x"@ + decimal_text(r.spec_height())
}

/// `<left>,<top> <width>x<height>` of a rectangle.
pub open spec fn rect_text(r: Rect) -> Seq<char> {
    decimal_text(r.left as int) + ","@ + decimal_text(r.top as int) + " "@ + size_text(r)
}

/// Formats a rectangle's size for a list cell.
pub fn format_size(rect: &Rect) -> (r: String)
    ensures
        r@ == size_text(*rect),
{
    let w = i64_to_string(rect.right as i64 - rect.left as i64);
    let h = i64_to_string(rect.bottom as i64 - rect.top as i64);
    let mut s = w;
    s.append("x");
    s.append(h.as_str());
    s
}

/// Formats a rectangle for a list cell.
pub fn format_rect(rect: &Rect) -> (r: String)
    ensures
        r@ == rect_text(*rect),
{
    let mut s = i64_to_string(rect.left as i64);
    s.append(",");
    let t = i64_to_string(rect.top as i64);
    s.append(t.as_str());
    s.append(" ");
    let z = format_size(rect);
    s.append(z.as_str());
    s
}

/// The cells of a window's list row: title, class, pid and rectangle.
pub fn window_row_texts(w: &WindowInfo) -> (r: Vec<String>)
    ensures
        r@.len() == 4,
        r@[0]@ == w.title@,
        r@[1]@ == w.class_name@,
        r@[2]@ == decimal_text(w.pid as int),
        r@[3]@ == rect_text(w.rect),
{
    let mut cells: Vec<String> = Vec::new();
    cells.push(w.title.clone());
    cells.push(w.class_name.clone());
    cells.push(i64_to_string(w.pid as i64));
    cells.push(format_rect(&w.rect));
    cells
}

/// The cells of a monitor's list row: index, name, size, primary mark and
/// rectangle.
pub fn monitor_row_texts(m: &MonitorInfo) -> (r: Vec<String>)
    ensures
        r@.len() == 5,
        r@[0]@ == decimal_text(m.index as int),
        r@[1]@ == m.name@,
        r@[2]@ == size_text(m.desktop),
        r@[3]@ == if m.primary {
            "yes"@
        } else {
            Seq::<char>::empty()
        },
        r@[4]@ == rect_text(m.desktop),
{
    let mut cells: Vec<String> = Vec::new();
    cells.push(i64_to_string(m.index as i64));
    cells.push(m.name.clone());
    cells.push(format_size(&m.desktop));
    if m.primary {
        cells.push("yes".to_owned());
    } else {
        cells.push(String::new());
    }
    cells.push(format_rect(&m.desktop));
    cells
}

/// Position of the first monitor from `i` on with the given index.
pub open spec fn position_of_index(ms: Seq<MonitorInfo>, idx: i32, i: nat) -> Option<nat>
    decreases ms.len() - i,
{
    if i >= ms.len() {
        None
    } else if ms[i as int].index == idx {
        Some(i)
    } else {
        position_of_index(ms, idx, i + 1)
    }
}

/// Position of the first primary monitor from `i` on.
pub open spec fn position_of_primary(ms: Seq<MonitorInfo>, i: nat) -> Option<nat>
    decreases ms.len() - i,
{
    if i >= ms.len() {
        None
    } else if ms[i as int].primary {
        Some(i)
    } else {
        position_of_primary(ms, i + 1)
    }
}

/// The row to select after a monitor refresh: the previously selected
/// monitor index if still present, else the first primary monitor, else
/// the first row; nothing for an empty list.
pub open spec fn restore_selection_spec(ms: Seq<MonitorInfo>, prev: Option<i32>) -> Option<nat> {
    if ms.len() == 0 {
        None
    } else {
        let by_prev = match prev {
            Some(idx) => position_of_index(ms, idx, 0),
            None => None,
        };
        match by_prev {
            Some(p) => Some(p),
            None => match position_of_primary(ms, 0) {
                Some(p) => Some(p),
                None => Some(0),
            },
        }
    }
}

proof fn lemma_position_of_index_bounds(ms: Seq<MonitorInfo>, idx: i32, i: nat)
    ensures
        position_of_index(ms, idx, i) matches Some(p) ==> i <= p < ms.len() && ms[p as int].index
            == idx,
    decreases ms.len() - i,
{
    if i < ms.len() && ms[i as int].index != idx {
        lemma_position_of_index_bounds(ms, idx, i + 1);
    }
}

proof fn lemma_position_of_primary_bounds(ms: Seq<MonitorInfo>, i: nat)
    ensures
        position_of_primary(ms, i) matches Some(p) ==> i <= p < ms.len() && ms[p as int].primary,
    decreases ms.len() - i,
{
    if i < ms.len() && !ms[i as int].primary {
        lemma_position_of_primary_bounds(ms, i + 1);
    }
}

fn find_index_position(monitors: &Vec<MonitorInfo>, idx: i32) -> (r: Option<usize>)
    ensures
        r matches Some(p) ==> position_of_index(monitors@, idx, 0) == Some(p as nat),
        r is None ==> position_of_index(monitors@, idx, 0) is None,
{
    let mut i: usize = 0;
    while i < monitors.len()
        invariant
            i <= monitors@.len(),
            position_of_index(monitors@, idx, 0) == position_of_index(monitors@, idx, i as nat),
        decreases monitors.len() - i,
    {
        if monitors[i].index == idx {
            return Some(i);
        }
        i = i + 1;
    }
    None
}

fn find_primary_position(monitors: &Vec<MonitorInfo>) -> (r: Option<usize>)
    ensures
        r matches Some(p) ==> position_of_primary(monitors@, 0) == Some(p as nat),
        r is None ==> position_of_primary(monitors@, 0) is None,
{
    let mut i: usize = 0;
    while i < monitors.len()
        invariant
            i <= monitors@.len(),
            position_of_primary(monitors@, 0) == position_of_primary(monitors@, i as nat),
        decreases monitors.len() - i,
    {
        if monitors[i].primary {
            return Some(i);
        }
        i = i + 1;
    }
    None
}

/// Picks the list row to select after a monitor refresh. Prefers the
/// previously selected `monitor.index`; if that monitor is gone, falls back
/// to the primary monitor, then row 0. Returns `None` when the list is empty.
pub fn restore_monitor_selection(monitors: &Vec<MonitorInfo>, prev_index: Option<i32>) -> (r:
    Option<usize>)
    ensures
        match restore_selection_spec(monitors@, prev_index) {
            Some(p) => r == Some(p as usize),
            None => r is None,
        },
{
    if monitors.len() == 0 {
        return None;
    }
    if let Some(idx) = prev_index {
        if let Some(p) = find_index_position(monitors, idx) {
            return Some(p);
        }
    }
    match find_primary_position(monitors) {
        Some(p) => Some(p),
        None => Some(0),
    }
}

/// A restored selection is a row of the list, and it shows the previously
/// selected monitor whenever that monitor is still listed, else a primary
/// monitor whenever one is listed.
pub proof fn law_restored_selection_in_range(ms: Seq<MonitorInfo>, prev: Option<i32>)
    ensures
        restore_selection_spec(ms, prev) is Some <==> ms.len() > 0,
        restore_selection_spec(ms, prev) matches Some(p) ==> {
            &&& p < ms.len()
            &&& match prev {
                Some(idx) => (exists|j: int| 0 <= j < ms.len() && ms[j].index == idx) ==> ms[p as int].index
                    == idx,
                None => true,
            }
            &&& (match prev {
                Some(idx) => forall|j: int| 0 <= j < ms.len() ==> ms[j].index != idx,
                None => true,
            }) && (exists|j: int| 0 <= j < ms.len() && ms[j].primary) ==> ms[p as int].primary
        },
{
    if let Some(idx) = prev {
        lemma_position_of_index_bounds(ms, idx, 0);
        lemma_position_of_index_complete(ms, idx, 0);
    }
    lemma_position_of_primary_bounds(ms, 0);
    lemma_position_of_primary_complete(ms, 0);
}

proof fn lemma_position_of_index_complete(ms: Seq<MonitorInfo>, idx: i32, i: nat)
    ensures
        position_of_index(ms, idx, i) is None ==> forall|j: int|
            i <= j < ms.len() ==> ms[j].index != idx,
    decreases ms.len() - i,
{
    if i < ms.len() {
        lemma_position_of_index_complete(ms, idx, i + 1);
    }
}

proof fn lemma_position_of_primary_complete(ms: Seq<MonitorInfo>, i: nat)
    ensures
        position_of_primary(ms, i) is None ==> forall|j: int| i <= j < ms.len() ==> !ms[j].primary,
    decreases ms.len() - i,
{
    if i < ms.len() {
        lemma_position_of_primary_complete(ms, i + 1);
    }
}

/// The monitor index to remember for a selected row, if the row exists.
pub fn preferred_monitor_for(monitors: &Vec<MonitorInfo>, selected: Option<usize>) -> (r: Option<
    i32,
>)
    ensures
        r == match selected {
            Some(i) => if i < monitors@.len() {
                Some(monitors@[i as int].index)
            } else {
                None
            },
            None => None,
        },
{
    match selected {
        Some(i) => if i < monitors.len() {
            Some(monitors[i].index)
        } else {
            None
        },
        None => None,
    }
}

/// The item of a drop-down list at selection `sel`; anything outside the
/// list (including "no selection", -1) selects the first item.
pub fn combo_selection_index(sel: isize, n: usize) -> (r: usize)
    requires
        n >= 1,
    ensures
        r == if 0 <= sel && sel < n {
            sel as usize
        } else {
            0
        },
{
    if sel >= 0 && (sel as usize) < n {
        sel as usize
    } else {
        0
    }
}

/// `a` sorts strictly before `b`: lexicographic by scalar value, a proper
/// prefix first (the order of `String` comparison).
pub open spec fn title_lt(a: Seq<char>, b: Seq<char>) -> bool
    decreases a.len(),
{
    if a.len() == 0 {
        b.len() > 0
    } else if b.len() == 0 {
        false
    } else if a[0] != b[0] {
        (a[0] as u32) < (b[0] as u32)
    } else {
        title_lt(a.drop_first(), b.drop_first())
    }
}

proof fn lemma_title_lt_asymmetric(a: Seq<char>, b: Seq<char>)
    ensures
        title_lt(a, b) ==> !title_lt(b, a),
    decreases a.len(),
{
    if a.len() > 0 && b.len() > 0 && a[0] == b[0] {
        lemma_title_lt_asymmetric(a.drop_first(), b.drop_first());
    }
}

proof fn lemma_title_lt_transitive(a: Seq<char>, b: Seq<char>, c: Seq<char>)
    ensures
        title_lt(a, b) && title_lt(b, c) ==> title_lt(a, c),
    decreases a.len(),
{
    if a.len() > 0 && b.len() > 0 && c.len() > 0 {
        lemma_title_lt_transitive(a.drop_first(), b.drop_first(), c.drop_first());
    }
}

proof fn lemma_title_lt_total(a: Seq<char>, b: Seq<char>)
    ensures
        title_lt(a, b) || title_lt(b, a) || a == b,
    decreases a.len(),
{
    if a.len() > 0 && b.len() > 0 && a[0] == b[0] {
        lemma_title_lt_total(a.drop_first(), b.drop_first());
        if a.drop_first() == b.drop_first() {
            assert(a.drop_first().len() == b.drop_first().len());
            assert(a.len() == b.len());
            assert(a =~= b) by {
                assert forall|i: int| 0 <= i < a.len() implies a[i] == b[i] by {
                    if i > 0 {
                        assert(a[i] == a.drop_first()[i - 1]);
                        assert(b[i] == b.drop_first()[i - 1]);
                    }
                }
            }
        }
    } else if a.len() == 0 && b.len() == 0 {
        assert(a =~= b);
    } else if a.len() > 0 && b.len() > 0 {
        assert((a[0] as u32) != (b[0] as u32)) by {
            vstd::utf8::char_u32_cast(a[0], a[0] as u32);
            vstd::utf8::char_u32_cast(b[0], b[0] as u32);
        }
    }
}

/// Where a window goes when inserted into title-sorted `s`: before the
/// first window with a greater title, so after every equal one.
pub open spec fn insert_pos(s: Seq<WindowInfo>, x: WindowInfo) -> nat
    decreases s.len(),
{
    if s.len() == 0 {
        0
    } else if title_lt(x.title@, s[0].title@) {
        0
    } else {
        1 + insert_pos(s.drop_first(), x)
    }
}

/// Stable sort by title: each window, in turn, is inserted after every
/// earlier window whose title is not greater.
pub open spec fn sort_by_title(s: Seq<WindowInfo>) -> Seq<WindowInfo>
    decreases s.len(),
{
    if s.len() == 0 {
        s
    } else {
        let t = sort_by_title(s.drop_last());
        t.insert(insert_pos(t, s.last()) as int, s.last())
    }
}

/// Titles never decrease along `s`.
pub open spec fn sorted_by_title(s: Seq<WindowInfo>) -> bool {
    forall|i: int, j: int| 0 <= i < j < s.len() ==> !title_lt(s[j].title@, s[i].title@)
}

/// The windows of `all` that are offered for capture, in order
/// (`ancestors[i]` is the root ancestor of window `i`).
pub open spec fn pickable_prefix(all: Seq<WindowInfo>, ancestors: Seq<isize>, n: nat) -> Seq<
    WindowInfo,
>
    decreases n,
{
    if n == 0 {
        Seq::empty()
    } else {
        let rest = pickable_prefix(all, ancestors, (n - 1) as nat);
        if pickable_spec(all[n - 1], ancestors[n - 1]) {
            rest.push(all[n - 1])
        } else {
            rest
        }
    }
}

proof fn lemma_insert_pos_props(s: Seq<WindowInfo>, x: WindowInfo)
    ensures
        insert_pos(s, x) <= s.len(),
        forall|i: int| 0 <= i < insert_pos(s, x) ==> !title_lt(x.title@, #[trigger] s[i].title@),
        insert_pos(s, x) < s.len() ==> title_lt(x.title@, s[insert_pos(s, x) as int].title@),
    decreases s.len(),
{
    if s.len() > 0 && !title_lt(x.title@, s[0].title@) {
        lemma_insert_pos_props(s.drop_first(), x);
        assert forall|i: int| 0 <= i < insert_pos(s, x) implies !title_lt(
            x.title@,
            #[trigger] s[i].title@,
        ) by {
            if i > 0 {
                assert(s[i] == s.drop_first()[i - 1]);
            }
        }
    }
}

proof fn lemma_insert_keeps_sorted(t: Seq<WindowInfo>, x: WindowInfo)
    requires
        sorted_by_title(t),
    ensures
        sorted_by_title(t.insert(insert_pos(t, x) as int, x)),
{
    let p = insert_pos(t, x) as int;
    lemma_insert_pos_props(t, x);
    let u = t.insert(p, x);
    assert forall|j: int| p <= j < t.len() implies title_lt(x.title@, #[trigger] t[j].title@) by {
        lemma_title_lt_total(t[p].title@, t[j].title@);
        lemma_title_lt_transitive(x.title@, t[p].title@, t[j].title@);
    }
    assert forall|i: int, j: int| 0 <= i < j < u.len() implies !title_lt(
        u[j].title@,
        u[i].title@,
    ) by {
        if i < p && j == p {
        } else if i == p {
            assert(u[j] == t[j - 1]);
            lemma_title_lt_asymmetric(x.title@, t[j - 1].title@);
        } else if j < p {
        } else if i < p {
            assert(u[j] == t[j - 1]);
        } else {
            assert(u[i] == t[i - 1]);
            assert(u[j] == t[j - 1]);
        }
    }
}

proof fn lemma_insert_multiset(t: Seq<WindowInfo>, p: int, x: WindowInfo)
    requires
        0 <= p <= t.len(),
    ensures
        t.insert(p, x).to_multiset() =~= t.to_multiset().insert(x),
{
    broadcast use vstd::seq_lib::group_to_multiset_ensures;

    let u = t.insert(p, x);
    assert(u.remove(p) =~= t);
    assert(u[p] == x);
    assert(u.remove(p).to_multiset() == u.to_multiset().remove(x));
    assert(u.contains(x));
}

/// Sorting by title orders the windows by title and keeps exactly the same
/// windows (as a multiset).
pub proof fn law_sort_by_title(s: Seq<WindowInfo>)
    ensures
        sorted_by_title(sort_by_title(s)),
        sort_by_title(s).to_multiset() =~= s.to_multiset(),
        sort_by_title(s).len() == s.len(),
    decreases s.len(),
{
    broadcast use vstd::seq_lib::group_to_multiset_ensures;

    if s.len() > 0 {
        let d = s.drop_last();
        law_sort_by_title(d);
        let t = sort_by_title(d);
        lemma_insert_keeps_sorted(t, s.last());
        lemma_insert_pos_props(t, s.last());
        lemma_insert_multiset(t, insert_pos(t, s.last()) as int, s.last());
        assert(s =~= d.push(s.last()));
    }
}

proof fn lemma_pickable_prefix_members(all: Seq<WindowInfo>, ancestors: Seq<isize>, n: nat, w: WindowInfo)
    requires
        n <= all.len(),
        ancestors.len() == all.len(),
    ensures
        pickable_prefix(all, ancestors, n).contains(w) <==> exists|j: int|
            0 <= j < n && #[trigger] all[j] == w && w.visible && !w.iconic && !w.cloaked
                && w.title@.len() > 0 && w.rect.spec_is_valid() && ancestors[j] == w.hwnd,
    decreases n,
{
    if n > 0 {
        lemma_pickable_prefix_members(all, ancestors, (n - 1) as nat, w);
        let rest = pickable_prefix(all, ancestors, (n - 1) as nat);
        let x = all[n - 1];
        if pickable_spec(x, ancestors[n - 1]) {
            assert(rest.push(x).contains(w) <==> (rest.contains(w) || x == w)) by {
                if rest.push(x).contains(w) {
                    let i = choose|i: int| 0 <= i < rest.push(x).len() && rest.push(x)[i] == w;
                    if i < rest.len() {
                        assert(rest[i] == w);
                    }
                }
                if rest.contains(w) {
                    let i = choose|i: int| 0 <= i < rest.len() && rest[i] == w;
                    assert(rest.push(x)[i] == w);
                }
                if x == w {
                    assert(rest.push(x)[rest.len() as int] == w);
                }
            }
        }
        if exists|j: int|
            0 <= j < n && #[trigger] all[j] == w && w.visible && !w.iconic && !w.cloaked
                && w.title@.len() > 0 && w.rect.spec_is_valid() && ancestors[j] == w.hwnd {
            let j = choose|j: int|
                0 <= j < n && #[trigger] all[j] == w && w.visible && !w.iconic && !w.cloaked
                    && w.title@.len() > 0 && w.rect.spec_is_valid() && ancestors[j] == w.hwnd;
            if j < n - 1 {
                assert(0 <= j < n - 1 && all[j] == w);
            }
        }
    }
}

/// The windows offered for capture are exactly the windows of the
/// enumeration that are visible, not minimised (not iconic), not cloaked,
/// titled, with a non-empty rectangle, and their own root.
pub proof fn law_pickable_windows_are_shown_titled_roots(
    all: Seq<WindowInfo>,
    ancestors: Seq<isize>,
    w: WindowInfo,
)
    requires
        ancestors.len() == all.len(),
    ensures
        sort_by_title(pickable_prefix(all, ancestors, all.len())).contains(w) <==> exists|j: int|
            0 <= j < all.len() && #[trigger] all[j] == w && w.visible && !w.iconic && !w.cloaked
                && w.title@.len() > 0 && w.rect.spec_is_valid() && ancestors[j] == w.hwnd,
{
    broadcast use vstd::seq_lib::group_to_multiset_ensures;

    let p = pickable_prefix(all, ancestors, all.len());
    lemma_pickable_prefix_members(all, ancestors, all.len(), w);
    law_sort_by_title(p);
    assert(sort_by_title(p).to_multiset().count(w) == p.to_multiset().count(w));
}

/// Whether title `a` sorts strictly before title `b`.
fn title_less(a: &String, b: &String) -> (r: bool)
    ensures
        r == title_lt(a@, b@),
{
    let ca = chars_of(a.as_str());
    let cb = chars_of(b.as_str());
    assert(a@.skip(0) =~= a@);
    assert(b@.skip(0) =~= b@);
    let mut i: usize = 0;
    while i < ca.len() && i < cb.len()
        invariant
            i <= ca@.len(),
            i <= cb@.len(),
            ca@ == a@,
            cb@ == b@,
            forall|k: int| 0 <= k < i ==> ca@[k] == cb@[k],
            title_lt(a@, b@) == title_lt(a@.skip(i as int), b@.skip(i as int)),
        decreases ca.len() - i,
    {
        let x = ca[i];
        let y = cb[i];
        assert(a@.skip(i as int)[0] == x);
        assert(b@.skip(i as int)[0] == y);
        if x != y {
            proof {
                vstd::utf8::char_u32_cast(x, x as u32);
                vstd::utf8::char_u32_cast(y, y as u32);
            }
            return (x as u32) < (y as u32);
        }
        assert(a@.skip(i as int).drop_first() =~= a@.skip(i + 1));
        assert(b@.skip(i as int).drop_first() =~= b@.skip(i + 1));
        i = i + 1;
    }
    i < cb.len()
}

/// The windows offered for capture, sorted by title (ties keep their
/// enumeration order).
pub fn pickable_windows(all: &Vec<WindowInfo>, ancestors: &Vec<isize>) -> (r: Vec<WindowInfo>)
    requires
        ancestors@.len() == all@.len(),
    ensures
        r@ == sort_by_title(pickable_prefix(all@, ancestors@, all@.len())),
{
    let mut picked: Vec<WindowInfo> = Vec::new();
    let mut i: usize = 0;
    while i < all.len()
        invariant
            i <= all@.len(),
            ancestors@.len() == all@.len(),
            picked@ == pickable_prefix(all@, ancestors@, i as nat),
        decreases all.len() - i,
    {
        if is_pickable(&all[i], ancestors[i]) {
            picked.push(all[i].clone());
        }
        i = i + 1;
    }
    let ghost src = picked@;
    let mut out: Vec<WindowInfo> = Vec::new();
    let mut k: usize = 0;
    assert(src.take(0) =~= Seq::<WindowInfo>::empty());
    while k < picked.len()
        invariant
            src == picked@,
            k <= src.len(),
            out@ == sort_by_title(src.take(k as int)),
        decreases picked.len() - k,
    {
        let x = picked[k].clone();
        let ghost before = out@;
        assert(before.subrange(0, before.len() as int) =~= before);
        let mut j: usize = 0;
        while j < out.len() && !title_less(&x.title, &out[j].title)
            invariant
                j <= out@.len(),
                out@ == before,
                insert_pos(before, x) == j + insert_pos(before.subrange(j as int, before.len() as int), x),
            decreases out.len() - j,
        {
            assert(before.subrange(j as int, before.len() as int).drop_first() =~= before.subrange(
                j + 1,
                before.len() as int,
            ));
            j = j + 1;
        }
        proof {
            if j < before.len() {
                assert(before.subrange(j as int, before.len() as int)[0] == before[j as int]);
            }
        }
        out.insert(j, x);
        assert(src.take(k + 1).drop_last() =~= src.take(k as int));
        assert(src.take(k + 1).last() == src[k as int]);
        k = k + 1;
    }
    assert(src.take(src.len() as int) =~= src);
    out
}

/// ASCII upper-casing of one character.
pub open spec fn ascii_upper(c: char) -> char {
    if 'a' <= c && c <= 'z' {
        ((c as u32) - 32) as char
    } else {
        c
    }
}

/// ASCII upper-casing of every character.
pub open spec fn ascii_upper_seq(s: Seq<char>) -> Seq<char> {
    Seq::new(s.len(), |i: int| ascii_upper(s[i]))
}

fn upper_chars(t: &Vec<char>) -> (r: Vec<char>)
    ensures
        r@ == ascii_upper_seq(t@),
{
    let mut r: Vec<char> = Vec::new();
    let mut i: usize = 0;
    while i < t.len()
        invariant
            i <= t@.len(),
            r@.len() == i,
            forall|j: int| 0 <= j < i ==> r@[j] == ascii_upper(#[trigger] t@[j]),
        decreases t.len() - i,
    {
        let c = t[i];
        let u = if 'a' <= c && c <= 'z' {
            match char::from_u32((c as u32) - 32) {
                Some(uc) => uc,
                None => c,
            }
        } else {
            c
        };
        proof {
            if 'a' <= c && c <= 'z' {
                vstd::utf8::char_u32_cast(u, ((c as u32) - 32) as u32);
            }
        }
        r.push(u);
        i = i + 1;
    }
    assert(r@ =~= ascii_upper_seq(t@));
    r
}

/// The save dialog's filter entry for the image format.
pub open spec fn image_filter_label(ext: Seq<char>) -> Seq<char> {
    ascii_upper_seq(ext) + " image (*."@ + ext + ")"@
}

/// The save dialog's filter list: the format's entry and pattern, then the
/// all-files entry and pattern, each NUL-terminated, and a final NUL.
pub open spec fn save_filter_spec(format: ImageFormat) -> Seq<u16> {
    let ext = format.spec_extension();
    encode_utf16(image_filter_label(ext)).push(0u16) + encode_utf16("*."@ + ext).push(0u16)
        + encode_utf16("All files (*.*)"@).push(0u16) + encode_utf16("*.*"@).push(0u16) + seq![
        0u16,
    ]
}

fn push_wide(buf: &mut Vec<u16>, s: &str)
    ensures
        final(buf)@ == old(buf)@ + encode_utf16(s@).push(0u16),
{
    let w = wide_from_utf8(s);
    let ghost start = buf@;
    let mut i: usize = 0;
    while i < w.len()
        invariant
            i <= w@.len(),
            buf@ == start + w@.take(i as int),
        decreases w.len() - i,
    {
        buf.push(w[i]);
        assert(w@.take(i + 1) == w@.take(i as int).push(w@[i as int]));
        i = i + 1;
    }
    buf.push(0);
    assert(w@.take(w@.len() as int) == w@);
}

/// Builds the save-dialog filter for the format, keeping the all-files
/// entry.
pub fn build_save_filter(format: ImageFormat) -> (r: Vec<u16>)
    ensures
        r@ == save_filter_spec(format),
{
    let ext = format.extension();
    let ext_chars = chars_of(ext);
    let upper = upper_chars(&ext_chars);
    let mut entry = string_from_chars(&upper);
    entry.append(" image (*.");
    entry.append(ext);
    entry.append(")");
    let mut pattern = "*.".to_owned();
    pattern.append(ext);
    let mut buf: Vec<u16> = Vec::new();
    push_wide(&mut buf, entry.as_str());
    push_wide(&mut buf, pattern.as_str());
    push_wide(&mut buf, "All files (*.*)");
    push_wide(&mut buf, "*.*");
    buf.push(0);
    assert(buf@ =~= save_filter_spec(format));
    buf
}

/// Position and size of one control.
#[derive(Clone, Copy, Debug, PartialEq, Eq, Structural)]
pub struct ControlBox {
    pub x: i32,
    pub y: i32,
    pub w: i32,
    pub h: i32,
}

/// Where every control of the capture window goes.
#[derive(Clone, Copy, Debug, PartialEq, Eq, Structural)]
pub struct ControlLayout {
    pub refresh: ControlBox,
    pub target: ControlBox,
    pub format: ControlBox,
    pub cursor: ControlBox,
    pub capture: ControlBox,
    pub out: ControlBox,
    pub browse: ControlBox,
    pub list: ControlBox,
    pub status: ControlBox,
}

/// Lays out the controls over a client area of `width` x `height`: a row
/// of buttons and drop-downs (capture button right-aligned), the output
/// path with its browse button, the list (at least 80 high) and the status
/// line at the bottom, with 10-pixel margins.
pub fn control_layout(width: i32, height: i32) -> (l: ControlLayout)
    requires
        width >= i32::MIN + 110,
        height >= i32::MIN + 124,
    ensures
        l.refresh == (ControlBox { x: 10, y: 10, w: 80, h: 28 }),
        l.target == (ControlBox { x: 100, y: 10, w: 110, h: 180 }),
        l.format == (ControlBox { x: 220, y: 10, w: 90, h: 180 }),
        l.cursor == (ControlBox { x: 320, y: 10, w: 130, h: 28 }),
        l.capture == (ControlBox { x: (width - 102) as i32, y: 10, w: 92, h: 28 }),
        l.out == (ControlBox { x: 10, y: 48, w: (width - 110) as i32, h: 24 }),
        l.browse == (ControlBox { x: (width - 90) as i32, y: 48, w: 80, h: 24 }),
        l.list == (ControlBox {
            x: 10,
            y: 82,
            w: (width - 20) as i32,
            h: if height - 124 >= 80 {
                (height - 124) as i32
            } else {
                80
            },
        }),
        l.status == (ControlBox { x: 10, y: (height - 32) as i32, w: (width - 20) as i32, h: 22 }),
{
    let pad: i32 = 10;
    let button_h: i32 = 28;
    let out_h: i32 = 24;
    let status_h: i32 = 22;
    let target_w: i32 = 110;
    let format_w: i32 = 90;
    let cursor_w: i32 = 130;
    let browse_w: i32 = 80;
    let capture_w: i32 = 92;
    let refresh_w: i32 = 80;
    let out_y = pad + button_h + pad;
    let pick_y = out_y + out_h + pad;
    let pick_h = height - pick_y - status_h - pad * 2;
    ControlLayout {
        refresh: ControlBox { x: pad, y: pad, w: refresh_w, h: button_h },
        target: ControlBox { x: pad + refresh_w + pad, y: pad, w: target_w, h: 180 },
        format: ControlBox { x: pad + refresh_w + pad + target_w + pad, y: pad, w: format_w, h: 180 },
        cursor: ControlBox {
            x: pad + refresh_w + pad + target_w + pad + format_w + pad,
            y: pad,
            w: cursor_w,
            h: button_h,
        },
        capture: ControlBox { x: width - pad - capture_w, y: pad, w: capture_w, h: button_h },
        out: ControlBox { x: pad, y: out_y, w: width - pad * 3 - browse_w, h: out_h },
        browse: ControlBox { x: width - pad - browse_w, y: out_y, w: browse_w, h: out_h },
        list: ControlBox {
            x: pad,
            y: pick_y,
            w: width - pad * 2,
            h: if pick_h >= 80 {
                pick_h
            } else {
                80
            },
        },
        status: ControlBox { x: pad, y: height - pad - status_h, w: width - pad * 2, h: status_h },
    }
}

/// The capture target for the selected row, or the message asking for a
/// selection.
pub fn select_capture_target(
    target: GuiTarget,
    selected: Option<usize>,
    windows: &Vec<WindowInfo>,
    monitors: &Vec<MonitorInfo>,
) -> (r: Result<CaptureTarget, &'static str>)
    ensures
        target == GuiTarget::Window ==> match selected {
            Some(i) if i < windows@.len() => r == Ok::<CaptureTarget, &'static str>(
                CaptureTarget::Window(windows@[i as int].hwnd as usize),
            ),
            _ => r matches Err(m) && m@ == "Select a window first."@,
        },
        target == GuiTarget::Monitor ==> match selected {
            Some(i) if i < monitors@.len() => r == Ok::<CaptureTarget, &'static str>(
                CaptureTarget::Monitor(monitors@[i as int].index),
            ),
            _ => r matches Err(m) && m@ == "Select a monitor first."@,
        },
{
    match target {
        GuiTarget::Window => match selected {
            Some(i) => if i < windows.len() {
                Ok(CaptureTarget::Window(windows[i].hwnd as usize))
            } else {
                Err("Select a window first.")
            },
            None => Err("Select a window first."),
        },
        GuiTarget::Monitor => match selected {
            Some(i) => if i < monitors.len() {
                Ok(CaptureTarget::Monitor(monitors[i].index))
            } else {
                Err("Select a monitor first.")
            },
            None => Err("Select a monitor first."),
        },
    }
}

/// Checks the output path before a capture: it must be given and valid.
/// Returns the path with normalised separators, or the message to show.
pub fn check_capture_output(out_path: &str) -> (r: Result<String, String>)
    ensures
        out_path@.len() == 0 ==> (r matches Err(m) && m@ == "Choose an output path first."@),
        out_path@.len() != 0 ==> match validate_output_path_spec(out_path@) {
            Err(reason) => r matches Err(m) && m@ == reason,
            Ok(()) => r matches Ok(p) && p@ == normalize_spec(out_path@),
        },
{
    if out_path.is_empty() {
        return Err("Choose an output path first.".to_owned());
    }
    match validate_output_path(out_path) {
        Err(reason) => Err(reason),
        Ok(()) => Ok(normalize_path_separators(out_path)),
    }
}

/// The capture's command line (after the program name): a JSON capture
/// that overwrites, logs nothing, waits up to 2000 ms and forces opaque
/// alpha, followed by the target, then `--format` when not the default and
/// `--cursor` when asked for.
pub open spec fn capture_args_spec(
    target: CaptureTarget,
    out_path: Seq<char>,
    format: ImageFormat,
    include_cursor: bool,
) -> Seq<Seq<char>> {
    let head = seq![
        "cap"@,
        "--method"@,
        target.spec_method(),
        "--out"@,
        out_path,
        "--overwrite"@,
        "--json"@,
        "--no-log"@,
        "--timeout-ms"@,
        "2000"@,
        "--force-alpha"@,
        "255"@,
    ];
    let tgt = match target {
        CaptureTarget::Window(h) => seq!["--target"@, "window"@, "--hwnd"@, decimal_digits(h as nat)],
        CaptureTarget::Monitor(i) => seq![
            "--target"@,
            "screen"@,
            "--monitor"@,
            decimal_text(i as int),
        ],
    };
    let fmt = if format != ImageFormat::Png {
        seq!["--format"@, format.spec_extension()]
    } else {
        Seq::empty()
    };
    let cur = if include_cursor {
        seq!["--cursor"@]
    } else {
        Seq::empty()
    };
    head + tgt + fmt + cur
}

fn push_str(args: &mut Vec<String>, s: &str)
    ensures
        final(args)@.len() == old(args)@.len() + 1,
        forall|i: int| 0 <= i < old(args)@.len() ==> final(args)@[i] == old(args)@[i],
        final(args)@[old(args)@.len() as int]@ == s@,
{
    args.push(s.to_owned());
}

/// The views of a list of strings.
pub open spec fn views(v: Seq<String>) -> Seq<Seq<char>> {
    Seq::new(v.len(), |i: int| v[i]@)
}

/// The arguments for running a capture of `target` into `out_path`.
pub fn capture_args(target: CaptureTarget, out_path: &str, format: ImageFormat, include_cursor: bool) -> (r:
    Vec<String>)
    ensures
        views(r@) == capture_args_spec(target, out_path@, format, include_cursor),
{
    let mut args: Vec<String> = Vec::new();
    push_str(&mut args, "cap");
    push_str(&mut args, "--method");
    push_str(&mut args, target.method());
    push_str(&mut args, "--out");
    push_str(&mut args, out_path);
    push_str(&mut args, "--overwrite");
    push_str(&mut args, "--json");
    push_str(&mut args, "--no-log");
    push_str(&mut args, "--timeout-ms");
    push_str(&mut args, "2000");
    push_str(&mut args, "--force-alpha");
    push_str(&mut args, "255");
    match target {
        CaptureTarget::Window(h) => {
            push_str(&mut args, "--target");
            push_str(&mut args, "window");
            push_str(&mut args, "--hwnd");
            let digits = decimal_chars(h as u64);
            args.push(string_from_chars(&digits));
        },
        CaptureTarget::Monitor(i) => {
            push_str(&mut args, "--target");
            push_str(&mut args, "screen");
            push_str(&mut args, "--monitor");
            args.push(i64_to_string(i as i64));
        },
    }
    if format != ImageFormat::Png {
        push_str(&mut args, "--format");
        push_str(&mut args, format.as_str());
    }
    if include_cursor {
        push_str(&mut args, "--cursor");
    }
    assert(views(args@) =~= capture_args_spec(target, out_path@, format, include_cursor));
    args
}

/// The message shown when a capture fails: the error the command reported,
/// or the exit code (1 when there is none).
pub fn capture_failure_message(reported: Option<String>, exit_code: Option<i32>) -> (r: String)
    ensures
        match reported {
            Some(m) => r@ == m@,
            None => r@ == "Capture failed. Exit code: "@ + decimal_text(
                match exit_code {
                    Some(c) => c as int,
                    None => 1,
                },
            ),
        },
{
    match reported {
        Some(m) => m,
        None => {
            let code: i32 = match exit_code {
                Some(c) => c,
                None => 1,
            };
            let mut s = "Capture failed. Exit code: ".to_owned();
            let t = i64_to_string(code as i64);
            s.append(t.as_str());
            s
        },
    }
}

/// The default file name of a capture: `screenshot_<stamp>.<ext>`.
pub fn screenshot_file_name(stamp: &str, format: ImageFormat) -> (r: String)
    ensures
        r@ == "screenshot_"@ + stamp@ + "."@ + format.spec_extension(),
{
    let mut s = "screenshot_".to_owned();
    s.append(stamp);
    s.append(".");
    s.append(format.extension());
    s
}

/// The next output path after a saved capture: the same directory (all
/// of the path up to its last separator) with a fresh
/// `screenshot_<stamp>.<ext>` name, so the next save does not overwrite.
pub open spec fn advanced_path_spec(current: Seq<char>, stamp: Seq<char>, format: ImageFormat) -> Seq<
    char,
> {
    current.take(last_sep(current) + 1) + "screenshot_"@ + stamp + "."@ + format.spec_extension()
}

/// The output path to offer after a capture was saved to `current`.
pub fn advanced_output_path(current: &str, stamp: &str, format: ImageFormat) -> (r: String)
    ensures
        r@ == advanced_path_spec(current@, stamp@, format),
{
    let cs = chars_of(current);
    let mut end: usize = cs.len();
    assert(cs@.take(cs@.len() as int) =~= cs@);
    while end > 0 && !(cs[end - 1] == '/' || cs[end - 1] == '\\')
        invariant
            end <= cs@.len(),
            last_sep(cs@) == last_sep(cs@.take(end as int)),
        decreases end,
    {
        assert(cs@.take(end as int).drop_last() =~= cs@.take(end - 1));
        end = end - 1;
    }
    proof {
        if end > 0 {
            assert(cs@.take(end as int).last() == cs@[end - 1]);
        } else {
            assert(cs@.take(0) =~= Seq::<char>::empty());
        }
        assert(cs@ == current@);
    }
    let mut head: Vec<char> = Vec::new();
    let mut i: usize = 0;
    while i < end
        invariant
            end <= cs@.len(),
            i <= end,
            head@ == cs@.take(i as int),
        decreases end - i,
    {
        head.push(cs[i]);
        assert(cs@.take(i + 1) == cs@.take(i as int).push(cs@[i as int]));
        i = i + 1;
    }
    let mut r = string_from_chars(&head);
    let name = screenshot_file_name(stamp, format);
    r.append(name.as_str());
    r
}

/// The text that `serde_json` finds in the JSON document `text` at member
/// `inner` of member `outer` of the top-level object, when `text` parses as
/// JSON and that member holds a JSON string; `None` otherwise.
pub uninterp spec fn json_member_text(text: Seq<char>, outer: Seq<char>, inner: Seq<char>) -> Option<
    Seq<char>,
>;

/// Parses `text` with `serde_json::from_str` into a `serde_json::Value`,
/// looks up `outer` and then `inner` with `Value::get`, and reads the
/// member with `Value::as_str`. The contract names the result
/// ([`json_member_text`]) as a function of the three arguments; what JSON
/// syntax is accepted is left to `serde_json` and not stated.
#[verifier::external_body]
fn json_member_text_of(text: &str, outer: &str, inner: &str) -> (r: Option<String>)
    ensures
        match json_member_text(text@, outer@, inner@) {
            Some(t) => r matches Some(s) && s@ == t,
            None => r is None,
        },
{
    match serde_json::from_str::<serde_json::Value>(text) {
        Ok(doc) => match doc.get(outer) {
            Some(v) => match v.get(inner) {
                Some(m) => m.as_str().map(str::to_owned),
                None => None,
            },
            None => None,
        },
        Err(_) => None,
    }
}

/// Pulls `error.message` out of a `cap --json` failure report printed on
/// standard output (surrounding whitespace allowed); `None` when the output
/// is not JSON or carries no such text.
pub fn extract_cli_error_message(stdout: &str) -> (r: Option<String>)
    ensures
        match json_member_text(trim_spec(stdout@), "error"@, "message"@) {
            Some(t) => r matches Some(s) && s@ == t,
            None => r is None,
        },
{
    let cs = chars_of(stdout);
    let trimmed_chars = trim_chars(&cs);
    let trimmed = string_from_chars(&trimmed_chars);
    json_member_text_of(trimmed.as_str(), "error", "message")
}

/// Control identifiers of the capture window.
pub const ID_LIST: u16 = 1001;

pub const ID_REFRESH: u16 = 1002;

pub const ID_TARGET: u16 = 1003;

pub const ID_OUT: u16 = 1004;

pub const ID_BROWSE: u16 = 1005;

pub const ID_CAPTURE: u16 = 1006;

pub const ID_STATUS: u16 = 1007;

pub const ID_FORMAT: u16 = 1008;

pub const ID_CURSOR: u16 = 1009;

/// Window messages the capture window handles (Win32 values).
pub const WM_CREATE: u32 = 0x0001;

pub const WM_DESTROY: u32 = 0x0002;

pub const WM_SIZE: u32 = 0x0005;

pub const WM_NOTIFY: u32 = 0x004E;

pub const WM_COMMAND: u32 = 0x0111;

/// Posted by the capture worker when the capture command has finished.
pub const WM_APP_CAPTURE_DONE: u32 = 0x8001;

/// Drop-down selection change notification.
pub const CBN_SELCHANGE: u16 = 1;

/// List double-click notification (`NM_DBLCLK`, -3).
pub const NM_DBLCLK: u32 = 0xFFFF_FFFD;

/// What the capture window does with a message.
#[derive(Clone, Copy, Debug, PartialEq, Eq, Structural)]
pub enum WindowAction {
    CreateControls,
    Layout,
    Refresh,
    Browse,
    Capture,
    /// The target drop-down changed: remember the monitor selection and
    /// rebuild the list.
    SwitchTarget,
    /// The format drop-down changed: follow with the output extension.
    SyncExtension,
    Quit,
    CaptureDone,
    /// Leave the message to the default window procedure.
    Default,
}

/// The action for message `msg`: commands carry the control in the low
/// 16 bits of `wparam` and the notification code in the next 16;
/// `notify` is the sender and code of a `WM_NOTIFY`.
pub open spec fn window_action_spec(msg: u32, wparam: usize, notify: Option<(usize, u32)>) -> WindowAction {
    if msg == WM_CREATE {
        WindowAction::CreateControls
    } else if msg == WM_SIZE {
        WindowAction::Layout
    } else if msg == WM_COMMAND {
        let id = (wparam % 0x10000) as u16;
        let code = ((wparam / 0x10000) % 0x10000) as u16;
        if id == ID_REFRESH {
            WindowAction::Refresh
        } else if id == ID_BROWSE {
            WindowAction::Browse
        } else if id == ID_CAPTURE {
            WindowAction::Capture
        } else if id == ID_TARGET && code == CBN_SELCHANGE {
            WindowAction::SwitchTarget
        } else if id == ID_FORMAT && code == CBN_SELCHANGE {
            WindowAction::SyncExtension
        } else {
            WindowAction::Default
        }
    } else if msg == WM_NOTIFY {
        match notify {
            Some((from, code)) => if from == ID_LIST as usize && code == NM_DBLCLK {
                WindowAction::Capture
            } else {
                WindowAction::Default
            },
            None => WindowAction::Default,
        }
    } else if msg == WM_DESTROY {
        WindowAction::Quit
    } else if msg == WM_APP_CAPTURE_DONE {
        WindowAction::CaptureDone
    } else {
        WindowAction::Default
    }
}

/// Decides what the capture window does with a message.
pub fn window_action(msg: u32, wparam: usize, notify: Option<(usize, u32)>) -> (a: WindowAction)
    ensures
        a == window_action_spec(msg, wparam, notify),
{
    if msg == WM_CREATE {
        WindowAction::CreateControls
    } else if msg == WM_SIZE {
        WindowAction::Layout
    } else if msg == WM_COMMAND {
        let id = (wparam % 0x10000) as u16;
        let code = ((wparam / 0x10000) % 0x10000) as u16;
        if id == ID_REFRESH {
            WindowAction::Refresh
        } else if id == ID_BROWSE {
            WindowAction::Browse
        } else if id == ID_CAPTURE {
            WindowAction::Capture
        } else if id == ID_TARGET && code == CBN_SELCHANGE {
            WindowAction::SwitchTarget
        } else if id == ID_FORMAT && code == CBN_SELCHANGE {
            WindowAction::SyncExtension
        } else {
            WindowAction::Default
        }
    } else if msg == WM_NOTIFY {
        match notify {
            Some((from, code)) => if from == ID_LIST as usize && code == NM_DBLCLK {
                WindowAction::Capture
            } else {
                WindowAction::Default
            },
            None => WindowAction::Default,
        }
    } else if msg == WM_DESTROY {
        WindowAction::Quit
    } else if msg == WM_APP_CAPTURE_DONE {
        WindowAction::CaptureDone
    } else {
        WindowAction::Default
    }
}

} // verus!
