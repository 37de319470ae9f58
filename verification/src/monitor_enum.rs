//! Monitor lookup by command-line token.

use vstd::prelude::*;

use crate::number::{parse_i32, parse_i32_spec};
use crate::text::{chars_of, str_eq};
use crate::types::{MonitorInfo, Rect};
use crate::util::{decode_utf16_lossy, utf8_from_wide};
use crate::util::{is_unicode_whitespace, is_whitespace_char};

verus! {

/// Index of the first character at or after `i` that is not whitespace.
pub open spec fn skip_ws_front(s: Seq<char>, i: nat) -> nat
    decreases s.len() - i,
{
    if i < s.len() && is_unicode_whitespace(s[i as int]) {
        skip_ws_front(s, i + 1)
    } else {
        i
    }
}

/// End of `s` after dropping trailing whitespace (never below `lo`).
pub open spec fn skip_ws_back(s: Seq<char>, lo: nat, end: nat) -> nat
    decreases end,
{
    if end > lo && end <= s.len() && is_unicode_whitespace(s[end - 1]) {
        skip_ws_back(s, lo, (end - 1) as nat)
    } else {
        end
    }
}

/// `s` with leading and trailing Unicode whitespace removed (`str::trim`).
pub open spec fn trim_spec(s: Seq<char>) -> Seq<char> {
    let a = skip_ws_front(s, 0);
    let b = skip_ws_back(s, a, s.len());
    s.subrange(a as int, b as int)
}

proof fn lemma_skip_front_bounds(s: Seq<char>, i: nat)
    requires
        i <= s.len(),
    ensures
        i <= skip_ws_front(s, i) <= s.len(),
    decreases s.len() - i,
{
    if i < s.len() && is_unicode_whitespace(s[i as int]) {
        lemma_skip_front_bounds(s, i + 1);
    }
}

/// `s.trim()` as characters.
pub fn trim_chars(s: &Vec<char>) -> (r: Vec<char>)
    ensures
        r@ == trim_spec(s@),
{
    let mut a: usize = 0;
    while a < s.len() && is_whitespace_char(s[a])
        invariant
            a <= s@.len(),
            skip_ws_front(s@, 0) == skip_ws_front(s@, a as nat),
        decreases s.len() - a,
    {
        a = a + 1;
    }
    let mut b: usize = s.len();
    proof {
        lemma_skip_front_bounds(s@, 0);
    }
    while b > a && is_whitespace_char(s[b - 1])
        invariant
            a <= b <= s@.len(),
            a == skip_ws_front(s@, 0),
            skip_ws_back(s@, a as nat, s@.len()) == skip_ws_back(s@, a as nat, b as nat),
        decreases b,
    {
        b = b - 1;
    }
    let mut r: Vec<char> = Vec::new();
    let mut i: usize = a;
    while i < b
        invariant
            a <= i <= b,
            b <= s@.len(),
            r@ == s@.subrange(a as int, i as int),
        decreases b - i,
    {
        r.push(s[i]);
        assert(s@.subrange(a as int, i + 1) == s@.subrange(a as int, i as int).push(s@[i as int]));
        i = i + 1;
    }
    r
}

/// Parses a decimal monitor index token (surrounding whitespace allowed);
/// `None` for non-numeric input.
pub fn parse_monitor_index(token: &str) -> (r: Option<i32>)
    ensures
        r == parse_i32_spec(trim_spec(token@)),
{
    let cs = chars_of(token);
    let t = trim_chars(&cs);
    parse_i32(&t)
}

/// The first primary monitor of the list (`iter().find(|m| m.primary)`).
pub open spec fn first_primary(ms: Seq<MonitorInfo>) -> Option<MonitorInfo>
    decreases ms.len(),
{
    if ms.len() == 0 {
        None
    } else if ms[0].primary {
        Some(ms[0])
    } else {
        first_primary(ms.drop_first())
    }
}

/// The first monitor of the list with the given index.
pub open spec fn first_with_index(ms: Seq<MonitorInfo>, idx: i32) -> Option<MonitorInfo>
    decreases ms.len(),
{
    if ms.len() == 0 {
        None
    } else if ms[0].index == idx {
        Some(ms[0])
    } else {
        first_with_index(ms.drop_first(), idx)
    }
}

/// The monitor a token selects: `primary` selects the first primary
/// monitor, a decimal index selects the first monitor with that index.
pub open spec fn find_monitor_spec(monitors: Seq<MonitorInfo>, token: Seq<char>) -> Option<
    MonitorInfo,
> {
    if token == "primary"@ {
        first_primary(monitors)
    } else {
        match parse_i32_spec(trim_spec(token)) {
            Some(idx) => first_with_index(monitors, idx),
            None => None,
        }
    }
}

/// token is "primary" or a monitor index in decimal.
pub fn find_monitor_by_token(monitors: &Vec<MonitorInfo>, token: &str) -> (r: Option<MonitorInfo>)
    ensures
        r == find_monitor_spec(monitors@, token@),
{
    let ghost ms = monitors@;
    assert(ms.subrange(0, ms.len() as int) == ms);
    if str_eq(token, "primary") {
        let mut i: usize = 0;
        while i < monitors.len()
            invariant
                i <= ms.len(),
                ms == monitors@,
                token@ == "primary"@,
                first_primary(ms) == first_primary(ms.subrange(i as int, ms.len() as int)),
            decreases monitors.len() - i,
        {
            assert(ms.subrange(i as int, ms.len() as int).drop_first() == ms.subrange(
                i + 1,
                ms.len() as int,
            ));
            if monitors[i].primary {
                let m = monitors[i].clone();
                assert(ms.subrange(i as int, ms.len() as int)[0] == m);
                return Some(m);
            }
            i = i + 1;
        }
        return None;
    }
    let idx = match parse_monitor_index(token) {
        Some(v) => v,
        None => {
            return None;
        },
    };
    let mut i: usize = 0;
    while i < monitors.len()
        invariant
            i <= ms.len(),
            ms == monitors@,
            token@ != "primary"@,
            parse_i32_spec(trim_spec(token@)) == Some(idx),
            first_with_index(ms, idx) == first_with_index(ms.subrange(i as int, ms.len() as int), idx),
        decreases monitors.len() - i,
    {
        assert(ms.subrange(i as int, ms.len() as int).drop_first() == ms.subrange(
            i + 1,
            ms.len() as int,
        ));
        if monitors[i].index == idx {
            let m = monitors[i].clone();
            assert(ms.subrange(i as int, ms.len() as int)[0] == m);
            return Some(m);
        }
        i = i + 1;
    }
    None
}

proof fn lemma_first_primary_member(ms: Seq<MonitorInfo>)
    ensures
        first_primary(ms) matches Some(m) ==> ms.contains(m) && m.primary,
    decreases ms.len(),
{
    if ms.len() > 0 && !ms[0].primary {
        lemma_first_primary_member(ms.drop_first());
        if let Some(m) = first_primary(ms.drop_first()) {
            let k = choose|k: int| 0 <= k < ms.drop_first().len() && ms.drop_first()[k] == m;
            assert(ms[k + 1] == m);
        }
    } else if ms.len() > 0 {
        assert(ms[0] == ms[0]);
    }
}

proof fn lemma_first_with_index_member(ms: Seq<MonitorInfo>, idx: i32)
    ensures
        first_with_index(ms, idx) matches Some(m) ==> ms.contains(m) && m.index == idx,
    decreases ms.len(),
{
    if ms.len() > 0 && ms[0].index != idx {
        lemma_first_with_index_member(ms.drop_first(), idx);
        if let Some(m) = first_with_index(ms.drop_first(), idx) {
            let k = choose|k: int| 0 <= k < ms.drop_first().len() && ms.drop_first()[k] == m;
            assert(ms[k + 1] == m);
        }
    } else if ms.len() > 0 {
        assert(ms[0] == ms[0]);
    }
}

/// A monitor selected by token is one of the monitors and matches the
/// token: the primary monitor for `primary`, the monitor with the parsed
/// index otherwise.
pub proof fn law_found_monitor_matches_token(monitors: Seq<MonitorInfo>, token: Seq<char>)
    ensures
        find_monitor_spec(monitors, token) matches Some(m) ==> {
            &&& monitors.contains(m)
            &&& token == "primary"@ ==> m.primary
            &&& token != "primary"@ ==> parse_i32_spec(trim_spec(token)) == Some(m.index)
        },
{
    lemma_first_primary_member(monitors);
    if let Some(idx) = parse_i32_spec(trim_spec(token)) {
        lemma_first_with_index_member(monitors, idx);
    }
}

proof fn lemma_first_with_index_complete(ms: Seq<MonitorInfo>, idx: i32, j: int)
    requires
        0 <= j < ms.len(),
        ms[j].index == idx,
    ensures
        first_with_index(ms, idx) is Some,
    decreases ms.len(),
{
    if ms[0].index != idx {
        assert(ms.drop_first()[j - 1] == ms[j]);
        lemma_first_with_index_complete(ms.drop_first(), idx, j - 1);
    }
}

proof fn lemma_first_primary_complete(ms: Seq<MonitorInfo>, j: int)
    requires
        0 <= j < ms.len(),
        ms[j].primary,
    ensures
        first_primary(ms) is Some,
    decreases ms.len(),
{
    if !ms[0].primary {
        assert(ms.drop_first()[j - 1] == ms[j]);
        lemma_first_primary_complete(ms.drop_first(), j - 1);
    }
}

/// The lookup never misses: when the token is a decimal index (any value,
/// 0 included) that some listed monitor has, a monitor with that index is
/// found; when the token is `primary` and some monitor is
/// primary, that too is found.
pub proof fn law_monitor_lookup_complete(monitors: Seq<MonitorInfo>, token: Seq<char>, j: int)
    requires
        0 <= j < monitors.len(),
    ensures
        token != "primary"@ && parse_i32_spec(trim_spec(token)) == Some(monitors[j].index) ==> (
        find_monitor_spec(monitors, token) matches Some(m) && m.index == monitors[j].index),
        token == "primary"@ && monitors[j].primary ==> (find_monitor_spec(monitors, token) matches Some(
            m,
        ) && m.primary),
{
    let idx = monitors[j].index;
    lemma_first_with_index_complete(monitors, idx, j);
    lemma_first_with_index_member(monitors, idx);
    if monitors[j].primary {
        lemma_first_primary_complete(monitors, j);
    }
    lemma_first_primary_member(monitors);
}

/// Number of units before the first NUL (the whole buffer when none).
pub open spec fn nul_position(buf: Seq<u16>, i: nat) -> nat
    decreases buf.len() - i,
{
    if i >= buf.len() {
        buf.len()
    } else if buf[i as int] == 0 {
        i
    } else {
        nul_position(buf, i + 1)
    }
}

/// The text of a NUL-terminated UTF-16 buffer (all of it when there is no
/// NUL), decoded lossily.
pub fn text_until_nul(buf: &Vec<u16>) -> (r: String)
    ensures
        r@ == decode_utf16_lossy(buf@.take(nul_position(buf@, 0) as int)),
{
    let mut n: usize = 0;
    while n < buf.len() && buf[n] != 0
        invariant
            n <= buf@.len(),
            nul_position(buf@, 0) == nul_position(buf@, n as nat),
        decreases buf.len() - n,
    {
        n = n + 1;
    }
    let mut head: Vec<u16> = Vec::new();
    let mut i: usize = 0;
    while i < n
        invariant
            n <= buf@.len(),
            i <= n,
            head@ == buf@.take(i as int),
        decreases n - i,
    {
        head.push(buf[i]);
        assert(buf@.take(i + 1) == buf@.take(i as int).push(buf@[i as int]));
        i = i + 1;
    }
    utf8_from_wide(head.as_slice())
}

/// What the system reports for one enumerated monitor: its handle, device
/// name, desktop rectangle and whether it is primary.
pub struct MonitorReport {
    pub hmon: isize,
    pub name: String,
    pub desktop: Rect,
    pub primary: bool,
}

/// Monitor enumeration in progress. Every enumerated monitor takes the
/// next index, including one whose details could not be read (it is left
/// out), so such a failure leaves a gap in the indices instead of shifting
/// every later monitor's index down by one.
pub struct MonitorEnumeration {
    pub list: Vec<MonitorInfo>,
    pub next_index: i32,
}

impl MonitorEnumeration {
    /// Indices are the enumeration positions: increasing, and below the
    /// number of monitors seen so far.
    pub open spec fn wf(&self) -> bool {
        &&& 0 <= self.next_index
        &&& forall|k: int| 0 <= k < self.list@.len() ==> 0 <= #[trigger] self.list@[k].index < self.next_index
        &&& forall|a: int, b: int|
            0 <= a < b < self.list@.len() ==> #[trigger] self.list@[a].index
                < #[trigger] self.list@[b].index
    }

    pub fn new() -> (e: Self)
        ensures
            e.wf(),
            e.list@.len() == 0,
            e.next_index == 0,
    {
        MonitorEnumeration { list: Vec::new(), next_index: 0 }
    }

    /// Records the next enumerated monitor; `None` when its details could
    /// not be read.
    pub fn visit(&mut self, report: Option<MonitorReport>)
        requires
            old(self).wf(),
            old(self).next_index < i32::MAX,
        ensures
            final(self).wf(),
            final(self).next_index == old(self).next_index + 1,
            match report {
                Some(r) => final(self).list@ == old(self).list@.push(
                    MonitorInfo {
                        hmon: r.hmon,
                        index: old(self).next_index,
                        name: r.name,
                        desktop: r.desktop,
                        primary: r.primary,
                    },
                ),
                None => final(self).list@ == old(self).list@,
            },
    {
        let index = self.next_index;
        self.next_index = self.next_index + 1;
        if let Some(r) = report {
            self.list.push(
                MonitorInfo {
                    hmon: r.hmon,
                    index,
                    name: r.name,
                    desktop: r.desktop,
                    primary: r.primary,
                },
            );
        }
    }

    /// The monitors read so far.
    pub fn finish(self) -> (v: Vec<MonitorInfo>)
        ensures
            v@ == self.list@,
    {
        self.list
    }
}

/// Enumerated monitors keep distinct indices: no two listed monitors share
/// one, whichever monitors could not be read.
pub proof fn law_monitor_indices_distinct(e: MonitorEnumeration)
    requires
        e.wf(),
    ensures
        forall|a: int, b: int|
            0 <= a < e.list@.len() && 0 <= b < e.list@.len() && a != b ==> e.list@[a].index
                != e.list@[b].index,
{
    assert forall|a: int, b: int|
        0 <= a < e.list@.len() && 0 <= b < e.list@.len() && a != b implies e.list@[a].index
        != e.list@[b].index by {
        if a < b {
            assert(e.list@[a].index < e.list@[b].index);
        } else {
            assert(e.list@[b].index < e.list@[a].index);
        }
    }
}

} // verus!
