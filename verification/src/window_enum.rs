//! Choice of the target window among the enumerated top-level windows.

use vstd::prelude::*;

use crate::text::{
    ascii_lower_seq, chars_contains, chars_of, lower_chars, seq_contains, str_eq,
};
use crate::types::{ErrorInfo, Rect, TargetWindowQuery, WindowInfo};
use crate::util::{decode_utf16_lossy, utf8_from_wide};

verus! {

/// Where every window-lookup failure is reported.
pub open spec fn resolve_where() -> Seq<char> {
    "ResolveWindowTarget"@
}

/// Reason reported when the window was chosen among filtered candidates.
pub open spec fn filters_reason() -> Seq<char> {
    "matched by filters, selected by priority(visible&&!iconic&&!cloaked > root > max area)"@
}

/// `v` clamped below at zero.
pub open spec fn nonneg(v: int) -> int {
    if v < 0 {
        0
    } else {
        v
    }
}

/// Area of a rectangle; an inverted side counts as zero.
pub open spec fn area_spec(r: Rect) -> int {
    nonneg(r.spec_width()) * nonneg(r.spec_height())
}

/// Area of `r`, with negative extents counted as zero.
pub fn area(r: &Rect) -> (a: u64)
    ensures
        a == area_spec(*r),
{
    let w: i64 = r.right as i64 - r.left as i64;
    let h: i64 = r.bottom as i64 - r.top as i64;
    let w0: u64 = if w < 0 {
        0
    } else {
        w as u64
    };
    let h0: u64 = if h < 0 {
        0
    } else {
        h as u64
    };
    assert(w0 * h0 <= 0xffff_ffffu64 * 0xffff_ffffu64) by (nonlinear_arith)
        requires
            w0 <= 0xffff_ffffu64,
            h0 <= 0xffff_ffffu64,
    ;
    w0 * h0
}

/// ASCII case-insensitive substring match; an empty needle matches anything.
pub open spec fn contains_i_spec(hay: Seq<char>, needle: Seq<char>) -> bool {
    needle.len() == 0 || seq_contains(ascii_lower_seq(hay), ascii_lower_seq(needle))
}

/// ASCII case-insensitive substring match for `--title` filters.
pub fn contains_i(hay: &str, needle: &str) -> (r: bool)
    ensures
        r == contains_i_spec(hay@, needle@),
{
    let n = chars_of(needle);
    if n.len() == 0 {
        return true;
    }
    let h = chars_of(hay);
    let hl = lower_chars(&h);
    let nl = lower_chars(&n);
    chars_contains(&hl, &nl)
}

/// The title filter ignores ASCII case: titles and needles that differ
/// only in the case of ASCII letters match alike.
pub proof fn law_contains_i_ignores_ascii_case(
    h1: Seq<char>,
    h2: Seq<char>,
    n1: Seq<char>,
    n2: Seq<char>,
)
    requires
        ascii_lower_seq(h1) == ascii_lower_seq(h2),
        ascii_lower_seq(n1) == ascii_lower_seq(n2),
    ensures
        contains_i_spec(h1, n1) == contains_i_spec(h2, n2),
{
    assert(n1.len() == ascii_lower_seq(n1).len());
    assert(n2.len() == ascii_lower_seq(n2).len());
}

/// A window passes the pid, title and class filters of the query.
pub open spec fn passes_filters(q: TargetWindowQuery, w: WindowInfo) -> bool {
    &&& q.pid matches Some(p) ==> w.pid as i32 == p
    &&& q.title matches Some(t) ==> contains_i_spec(w.title@, t@)
    &&& q.class_name matches Some(c) ==> w.class_name@ == c@
}

/// Shown, not minimised and not cloaked.
pub open spec fn usable(w: WindowInfo) -> bool {
    w.visible && !w.iconic && !w.cloaked
}

/// The ranking key of a window: usability, being its own root, area.
pub open spec fn rank_key(w: WindowInfo, root: isize) -> (bool, bool, int) {
    (usable(w), root == w.hwnd, area_spec(w.rect))
}

/// `a` ranks strictly above `b`, comparing usability, then being a root
/// window, then area.
pub open spec fn ranks_above(a: (bool, bool, int), b: (bool, bool, int)) -> bool {
    if a.0 != b.0 {
        a.0
    } else if a.1 != b.1 {
        a.1
    } else {
        a.2 > b.2
    }
}

/// Position of the first window at or after `i` with the given handle.
pub open spec fn index_of_hwnd(all: Seq<WindowInfo>, h: isize, i: nat) -> Option<int>
    decreases all.len() - i,
{
    if i >= all.len() {
        None
    } else if all[i as int].hwnd == h {
        Some(i as int)
    } else {
        index_of_hwnd(all, h, i + 1)
    }
}

/// Position of the first best-ranked candidate among the first `n`
/// windows (`ancestors[i]` is the root ancestor of window `i`).
pub open spec fn best_candidate(
    q: TargetWindowQuery,
    all: Seq<WindowInfo>,
    ancestors: Seq<isize>,
    n: nat,
) -> Option<int>
    decreases n,
{
    if n == 0 {
        None
    } else {
        let prev = best_candidate(q, all, ancestors, (n - 1) as nat);
        let i = n - 1;
        if passes_filters(q, all[i]) && (prev matches Some(p) ==> ranks_above(
            rank_key(all[i], ancestors[i]),
            rank_key(all[p], ancestors[p]),
        )) {
            Some(i)
        } else {
            prev
        }
    }
}

/// `r` picked window `w` with the given reason.
pub open spec fn picked(
    r: Result<(WindowInfo, String), ErrorInfo>,
    w: WindowInfo,
    reason: Seq<char>,
) -> bool {
    r matches Ok((x, s)) && x == w && s@ == reason
}

/// `r` is the lookup failure with the given message.
pub open spec fn lookup_failed(r: Result<(WindowInfo, String), ErrorInfo>, message: Seq<char>) -> bool {
    r matches Err(e) && e.message@ == message && e.where_@ == resolve_where() && e.hresult is None
        && e.win32_error is None
}

/// The outcome of a window lookup by an exact handle.
pub open spec fn by_handle(
    r: Result<(WindowInfo, String), ErrorInfo>,
    all: Seq<WindowInfo>,
    h: isize,
    reason: Seq<char>,
    missing: Seq<char>,
) -> bool {
    match index_of_hwnd(all, h, 0) {
        Some(k) => picked(r, all[k], reason),
        None => lookup_failed(r, missing),
    }
}

/// What resolving the target window yields: by exact handle for `--hwnd`,
/// by the foreground handle for `--foreground`, otherwise the first
/// best-ranked window among those passing the filters.
pub open spec fn window_lookup(
    r: Result<(WindowInfo, String), ErrorInfo>,
    q: TargetWindowQuery,
    all: Seq<WindowInfo>,
    foreground: isize,
    ancestors: Seq<isize>,
) -> bool {
    match q.hwnd {
        Some(h) => by_handle(r, all, h as isize, "matched by --hwnd"@, "window not found by --hwnd"@),
        None => if q.foreground {
            by_handle(r, all, foreground, "matched by --foreground"@, "foreground window not found"@)
        } else {
            match best_candidate(q, all, ancestors, all.len()) {
                Some(k) => picked(r, all[k], filters_reason()),
                None => lookup_failed(r, "no matching windows"@),
            }
        },
    }
}

proof fn lemma_index_of_hwnd_bounds(all: Seq<WindowInfo>, h: isize, i: nat)
    ensures
        index_of_hwnd(all, h, i) matches Some(k) ==> i <= k < all.len() && all[k].hwnd == h,
    decreases all.len() - i,
{
    if i < all.len() && all[i as int].hwnd != h {
        lemma_index_of_hwnd_bounds(all, h, i + 1);
    }
}

/// The first window with handle `h`.
fn find_by_hwnd(all: &Vec<WindowInfo>, h: isize) -> (r: Option<usize>)
    ensures
        r matches Some(k) ==> index_of_hwnd(all@, h, 0) == Some(k as int) && k < all@.len(),
        r is None ==> index_of_hwnd(all@, h, 0) is None,
{
    let mut i: usize = 0;
    while i < all.len()
        invariant
            i <= all@.len(),
            index_of_hwnd(all@, h, 0) == index_of_hwnd(all@, h, i as nat),
        decreases all.len() - i,
    {
        if all[i].hwnd == h {
            proof {
                lemma_index_of_hwnd_bounds(all@, h, i as nat);
            }
            return Some(i);
        }
        i = i + 1;
    }
    None
}

/// Whether the query's pid, title and class filters accept `w`.
fn window_passes(q: &TargetWindowQuery, w: &WindowInfo) -> (b: bool)
    ensures
        b == passes_filters(*q, *w),
{
    if let Some(pid) = q.pid {
        if w.pid as i32 != pid {
            return false;
        }
    }
    if let Some(title) = &q.title {
        if !contains_i(w.title.as_str(), title.as_str()) {
            return false;
        }
    }
    if let Some(class_name) = &q.class_name {
        if !str_eq(w.class_name.as_str(), class_name.as_str()) {
            return false;
        }
    }
    true
}

/// Resolve the target window. Priority: `--hwnd` exact match, then
/// `--foreground` (the handle in `foreground`), then pid / title
/// (case-insensitive substring) / class (exact) filters, ranked by
/// (visible && !iconic && !cloaked, is-root, area) descending with the
/// earliest window winning ties. `ancestors[i]` is the root ancestor of
/// window `i`. Returns the window and the human-readable match reason.
pub fn resolve_window_target(
    query: &TargetWindowQuery,
    all: &Vec<WindowInfo>,
    foreground: isize,
    ancestors: &Vec<isize>,
) -> (r: Result<(WindowInfo, String), ErrorInfo>)
    requires
        ancestors@.len() == all@.len(),
    ensures
        window_lookup(r, *query, all@, foreground, ancestors@),
{
    if let Some(hwnd_val) = query.hwnd {
        let target = hwnd_val as isize;
        match find_by_hwnd(all, target) {
            Some(k) => {
                return Ok((all[k].clone(), "matched by --hwnd".to_string()));
            },
            None => {
                return Err(ErrorInfo::new("window not found by --hwnd", "ResolveWindowTarget"));
            },
        }
    }
    if query.foreground {
        match find_by_hwnd(all, foreground) {
            Some(k) => {
                return Ok((all[k].clone(), "matched by --foreground".to_string()));
            },
            None => {
                return Err(ErrorInfo::new("foreground window not found", "ResolveWindowTarget"));
            },
        }
    }
    let mut best: Option<usize> = None;
    let mut best_usable: bool = false;
    let mut best_root: bool = false;
    let mut best_area: u64 = 0;
    let mut i: usize = 0;
    while i < all.len()
        invariant
            i <= all@.len(),
            ancestors@.len() == all@.len(),
            best_candidate(*query, all@, ancestors@, i as nat) == (match best {
                Some(b) => Some(b as int),
                None => None::<int>,
            }),
            best matches Some(b) ==> b < i && rank_key(all@[b as int], ancestors@[b as int]) == (
            best_usable,
            best_root,
            best_area as int,
            ),
        decreases all.len() - i,
    {
        let w = &all[i];
        if window_passes(query, w) {
            let u = w.visible && !w.iconic && !w.cloaked;
            let root = ancestors[i] == w.hwnd;
            let a = area(&w.rect);
            let better = match best {
                None => true,
                Some(_) => if u != best_usable {
                    u
                } else if root != best_root {
                    root
                } else {
                    a > best_area
                },
            };
            if better {
                best = Some(i);
                best_usable = u;
                best_root = root;
                best_area = a;
            }
        }
        i = i + 1;
    }
    match best {
        Some(k) => Ok(
            (
                all[k].clone(),
                "matched by filters, selected by priority(visible&&!iconic&&!cloaked > root > max area)".to_string(),
            ),
        ),
        None => Err(ErrorInfo::new("no matching windows", "ResolveWindowTarget")),
    }
}

/// The window chosen among the filtered candidates is a candidate, no
/// candidate ranks above it, and every earlier candidate ranks strictly
/// below it; there is none exactly when no window passes the filters.
pub proof fn law_best_candidate_is_first_of_highest_rank(
    q: TargetWindowQuery,
    all: Seq<WindowInfo>,
    ancestors: Seq<isize>,
    n: nat,
)
    requires
        n <= all.len(),
        ancestors.len() == all.len(),
    ensures
        best_candidate(q, all, ancestors, n) is None <==> (forall|j: int|
            0 <= j < n ==> !passes_filters(q, #[trigger] all[j])),
        best_candidate(q, all, ancestors, n) matches Some(k) ==> {
            &&& 0 <= k < n
            &&& passes_filters(q, all[k])
            &&& forall|j: int|
                0 <= j < n && passes_filters(q, #[trigger] all[j]) ==> !ranks_above(
                    rank_key(all[j], ancestors[j]),
                    rank_key(all[k], ancestors[k]),
                )
            &&& forall|j: int|
                0 <= j < k && passes_filters(q, #[trigger] all[j]) ==> ranks_above(
                    rank_key(all[k], ancestors[k]),
                    rank_key(all[j], ancestors[j]),
                )
        },
    decreases n,
{
    if n > 0 {
        law_best_candidate_is_first_of_highest_rank(q, all, ancestors, (n - 1) as nat);
    }
}

/// Among the windows that pass the filters, a usable one (visible, not
/// minimised, not cloaked) is always preferred: whenever some candidate
/// is visible, not iconic and not cloaked, the filter lookup succeeds with
/// a candidate that is visible, not iconic and not cloaked as well.
pub proof fn law_resolve_prefers_usable_window(
    r: Result<(WindowInfo, String), ErrorInfo>,
    q: TargetWindowQuery,
    all: Seq<WindowInfo>,
    foreground: isize,
    ancestors: Seq<isize>,
    j: int,
)
    requires
        ancestors.len() == all.len(),
        window_lookup(r, q, all, foreground, ancestors),
        q.hwnd is None,
        !q.foreground,
        0 <= j < all.len(),
        passes_filters(q, all[j]),
        all[j].visible && !all[j].iconic && !all[j].cloaked,
    ensures
        r matches Ok((w, _)) && w.visible && !w.iconic && !w.cloaked
            && exists|k: int| 0 <= k < all.len() && all[k] == w && passes_filters(q, all[k]),
{
    law_best_candidate_is_first_of_highest_rank(q, all, ancestors, all.len());
    let k = best_candidate(q, all, ancestors, all.len()).unwrap();
    assert(passes_filters(q, all[j]));
    assert(!ranks_above(rank_key(all[j], ancestors[j]), rank_key(all[k], ancestors[k])));
}

/// How the filter lookup ranks: against any candidate `j`, the chosen
/// window (at some position `k`) is usable (visible, not minimised, not
/// cloaked) if `j` is; at equal usability it is its own root if `j` is;
/// and at equal usability and rootness its area is at least `j`'s.
pub proof fn law_resolve_ranks_usable_then_root_then_area(
    r: Result<(WindowInfo, String), ErrorInfo>,
    q: TargetWindowQuery,
    all: Seq<WindowInfo>,
    foreground: isize,
    ancestors: Seq<isize>,
    j: int,
)
    requires
        ancestors.len() == all.len(),
        window_lookup(r, q, all, foreground, ancestors),
        q.hwnd is None,
        !q.foreground,
        0 <= j < all.len(),
        passes_filters(q, all[j]),
    ensures
        r matches Ok((w, _)) && exists|k: int|
            0 <= k < all.len() && #[trigger] all[k] == w && passes_filters(q, w) && {
                let uj = all[j].visible && !all[j].iconic && !all[j].cloaked;
                let uk = w.visible && !w.iconic && !w.cloaked;
                let rj = ancestors[j] == all[j].hwnd;
                let rk = ancestors[k] == w.hwnd;
                &&& uj ==> uk
                &&& uj == uk && rj ==> rk
                &&& uj == uk && rj == rk ==> area_spec(w.rect) >= area_spec(all[j].rect)
            },
{
    law_best_candidate_is_first_of_highest_rank(q, all, ancestors, all.len());
    let k = best_candidate(q, all, ancestors, all.len()).unwrap();
    assert(!ranks_above(rank_key(all[j], ancestors[j]), rank_key(all[k], ancestors[k])));
    assert(0 <= k < all.len() && all[k] == all[k]);
}

/// The rectangle spanned by two mapped corners. Right-to-left layouts
/// mirror x, so the corners may come back swapped; each axis is put in
/// order.
pub fn rect_from_corners(x0: i32, y0: i32, x1: i32, y1: i32) -> (r: Rect)
    ensures
        r.left == if x0 <= x1 {
            x0
        } else {
            x1
        },
        r.right == if x0 <= x1 {
            x1
        } else {
            x0
        },
        r.top == if y0 <= y1 {
            y0
        } else {
            y1
        },
        r.bottom == if y0 <= y1 {
            y1
        } else {
            y0
        },
{
    let (left, right) = if x0 > x1 {
        (x1, x0)
    } else {
        (x0, x1)
    };
    let (top, bottom) = if y0 > y1 {
        (y1, y0)
    } else {
        (y0, y1)
    };
    Rect { left, top, right, bottom }
}

/// The text in the first `reported` units of a UTF-16 buffer (a negative
/// count reads as zero), decoded lossily.
pub fn text_from_units(buf: &Vec<u16>, reported: i32) -> (r: String)
    requires
        reported <= buf@.len(),
    ensures
        r@ == decode_utf16_lossy(buf@.take(if reported < 0 {
            0
        } else {
            reported as int
        })),
{
    let n: usize = if reported < 0 {
        0
    } else {
        reported as usize
    };
    let mut head: Vec<u16> = Vec::new();
    let mut i: usize = 0;
    while i < n
        invariant
            n <= buf@.len(),
            i <= n,
            head@ == buf@.take(i as int),
        decreases n - i,
    {
        head.push(buf[i]);
        assert(buf@.take(i + 1) == buf@.take(i as int).push(buf@[i as int]));
        i = i + 1;
    }
    utf8_from_wide(head.as_slice())
}

} // verus!
