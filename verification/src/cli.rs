//! Validation of the `cap` command's arguments and hotkey specifications.
//! The argument grammar itself (flags, defaults, value lists) is declared
//! with the command-line parser; this module checks and maps what it read.

use vstd::prelude::*;

use crate::number::{parse_i32, parse_i32_spec};
use crate::text::{ascii_lower, ascii_lower_seq, chars_of, lower_chars, str_eq};
use crate::types::{
    CapOptions, CommandType, CommonOptions, CropMode, CropRect, Pad, TargetScreenQuery, TargetType,
    TargetWindowQuery,
};
use crate::util::{validate_output_path, validate_output_path_spec};

verus! {

/// Hotkey modifier flags and virtual-key codes (Win32 values).
pub const MOD_ALT: u32 = 0x0001;

pub const MOD_CONTROL: u32 = 0x0002;

pub const MOD_SHIFT: u32 = 0x0004;

pub const MOD_WIN: u32 = 0x0008;

pub const MOD_NOREPEAT: u32 = 0x4000;

pub const VK_SPACE: u32 = 0x20;

pub const VK_SNAPSHOT: u32 = 0x2C;

pub const VK_F1: u32 = 0x70;

/// `s` with every trailing `c` removed.
pub open spec fn trim_end_char(s: Seq<char>, c: char) -> Seq<char>
    decreases s.len(),
{
    if s.len() > 0 && s.last() == c {
        trim_end_char(s.drop_last(), c)
    } else {
        s
    }
}

/// `str::split` on `sep` over the first `n` characters: the pieces between
/// separators, in order (a separator at either end gives an empty piece).
pub open spec fn split_prefix(s: Seq<char>, sep: char, n: nat) -> Seq<Seq<char>>
    decreases n,
{
    if n == 0 {
        seq![Seq::empty()]
    } else {
        let prev = split_prefix(s, sep, (n - 1) as nat);
        if s[n - 1] == sep {
            prev.push(Seq::empty())
        } else {
            prev.update(prev.len() - 1, prev.last().push(s[n - 1]))
        }
    }
}

pub open spec fn split_on(s: Seq<char>, sep: char) -> Seq<Seq<char>> {
    split_prefix(s, sep, s.len())
}

/// Function-key token `f1` .. `f24` (the number as `i32` syntax).
pub open spec fn function_key_spec(token: Seq<char>) -> Option<u32> {
    if token.len() > 0 && token[0] == 'f' {
        match parse_i32_spec(token.drop_first()) {
            Some(n) => if 1 <= n <= 24 {
                Some((VK_F1 + (n - 1)) as u32)
            } else {
                None
            },
            None => None,
        }
    } else {
        None
    }
}

/// What a lower-cased hotkey token denotes.
pub enum HotkeyToken {
    Modifier(u32),
    Key(u32),
    Invalid,
}

pub open spec fn classify_token(t: Seq<char>) -> HotkeyToken {
    if t == "ctrl"@ || t == "control"@ {
        HotkeyToken::Modifier(MOD_CONTROL)
    } else if t == "alt"@ {
        HotkeyToken::Modifier(MOD_ALT)
    } else if t == "shift"@ {
        HotkeyToken::Modifier(MOD_SHIFT)
    } else if t == "win"@ || t == "windows"@ {
        HotkeyToken::Modifier(MOD_WIN)
    } else if t.len() == 1 {
        if 'a' <= t[0] && t[0] <= 'z' {
            HotkeyToken::Key(((t[0] as u32) - 32) as u32)
        } else if '0' <= t[0] && t[0] <= '9' {
            HotkeyToken::Key(t[0] as u32)
        } else {
            HotkeyToken::Invalid
        }
    } else if function_key_spec(t) is Some {
        HotkeyToken::Key(function_key_spec(t).unwrap())
    } else if t == "printscreen"@ || t == "prtsc"@ || t == "snapshot"@ {
        HotkeyToken::Key(VK_SNAPSHOT)
    } else if t == "space"@ {
        HotkeyToken::Key(VK_SPACE)
    } else {
        HotkeyToken::Invalid
    }
}

/// Folds the first `n` tokens into (modifiers, key, has_modifier); `None`
/// once a token is empty or invalid or a second key appears.
pub open spec fn hotkey_fold(tokens: Seq<Seq<char>>, n: nat) -> Option<(u32, u32, bool)>
    decreases n,
{
    if n == 0 {
        Some((MOD_NOREPEAT, 0u32, false))
    } else {
        match hotkey_fold(tokens, (n - 1) as nat) {
            None => None,
            Some((mods, vk, has)) => {
                let t = ascii_lower_seq(tokens[n - 1]);
                if t.len() == 0 {
                    None
                } else {
                    match classify_token(t) {
                        HotkeyToken::Modifier(bit) => Some((mods | bit, vk, true)),
                        HotkeyToken::Key(k) => if vk != 0 {
                            None
                        } else {
                            Some((mods, k, has))
                        },
                        HotkeyToken::Invalid => None,
                    }
                }
            },
        }
    }
}

/// Tokens of a hotkey specification: trailing `+` removed, then split on
/// `+`.
pub open spec fn hotkey_tokens(spec: Seq<char>) -> Seq<Seq<char>> {
    split_on(trim_end_char(spec, '+'), '+')
}

/// A hotkey is one or more modifiers plus exactly one key, joined by `+`,
/// case-insensitively; the result is (modifier flags with NOREPEAT, key).
pub open spec fn parse_hotkey_spec(spec: Seq<char>) -> Option<(u32, u32)> {
    let tokens = hotkey_tokens(spec);
    match hotkey_fold(tokens, tokens.len()) {
        Some((mods, vk, has)) => if has && vk != 0 {
            Some((mods, vk))
        } else {
            None
        },
        None => None,
    }
}

/// One of the first `n` tokens, lower-cased, is `a` or `b`.
pub open spec fn some_token_is(ts: Seq<Seq<char>>, n: nat, a: Seq<char>, b: Seq<char>) -> bool {
    exists|i: int| 0 <= i < n && (#[trigger] ascii_lower_seq(ts[i]) == a || ascii_lower_seq(ts[i]) == b)
}

proof fn lemma_some_token_step(ts: Seq<Seq<char>>, n: nat, a: Seq<char>, b: Seq<char>)
    requires
        n > 0,
    ensures
        some_token_is(ts, n, a, b) == (some_token_is(ts, (n - 1) as nat, a, b) || ascii_lower_seq(
            ts[n - 1],
        ) == a || ascii_lower_seq(ts[n - 1]) == b),
{
    if some_token_is(ts, n, a, b) {
        let i = choose|i: int|
            0 <= i < n && (#[trigger] ascii_lower_seq(ts[i]) == a || ascii_lower_seq(ts[i]) == b);
        if i < n - 1 {
            assert(some_token_is(ts, (n - 1) as nat, a, b));
        }
    }
    if ascii_lower_seq(ts[n - 1]) == a || ascii_lower_seq(ts[n - 1]) == b {
        assert(0 <= n - 1 < n && (ascii_lower_seq(ts[n - 1]) == a || ascii_lower_seq(ts[n - 1]) == b));
    }
    if some_token_is(ts, (n - 1) as nat, a, b) {
        let i = choose|i: int|
            0 <= i < n - 1 && (#[trigger] ascii_lower_seq(ts[i]) == a || ascii_lower_seq(ts[i]) == b);
        assert(0 <= i < n);
    }
}

/// The modifier names: each names exactly one flag.
proof fn lemma_modifier_names(t: Seq<char>)
    ensures
        (t == "ctrl"@ || t == "control"@) ==> classify_token(t) == HotkeyToken::Modifier(MOD_CONTROL),
        t == "alt"@ ==> classify_token(t) == HotkeyToken::Modifier(MOD_ALT),
        t == "shift"@ ==> classify_token(t) == HotkeyToken::Modifier(MOD_SHIFT),
        (t == "win"@ || t == "windows"@) ==> classify_token(t) == HotkeyToken::Modifier(MOD_WIN),
        classify_token(t) matches HotkeyToken::Modifier(b) ==> {
            ||| b == MOD_CONTROL && (t == "ctrl"@ || t == "control"@)
            ||| b == MOD_ALT && t == "alt"@
            ||| b == MOD_SHIFT && t == "shift"@
            ||| b == MOD_WIN && (t == "win"@ || t == "windows"@)
        },
{
    reveal_strlit("ctrl");
    reveal_strlit("control");
    reveal_strlit("alt");
    reveal_strlit("shift");
    reveal_strlit("win");
    reveal_strlit("windows");
    assert("ctrl"@[0] == 'c' && "control"@[0] == 'c' && "alt"@[0] == 'a' && "shift"@[0] == 's'
        && "win"@[0] == 'w' && "windows"@[0] == 'w');
}

proof fn lemma_or_flag(m: u32, b: u32, c: u32)
    by (bit_vector)
    requires
        b == 1 || b == 2 || b == 4 || b == 8,
        c == 1 || c == 2 || c == 4 || c == 8 || c == 0x4000,
    ensures
        ((m | b) & c != 0) == (b == c || m & c != 0),
        (m | b) & 0xFFFF_BFF0 == m & 0xFFFF_BFF0,
{
}

/// What the folded modifier flags say about the first `n` tokens.
proof fn lemma_fold_modifier_names(ts: Seq<Seq<char>>, n: nat)
    requires
        n <= ts.len(),
    ensures
        hotkey_fold(ts, n) matches Some((m, vk, has)) ==> {
            &&& m & MOD_NOREPEAT != 0
            &&& m & 0xFFFF_BFF0 == 0
            &&& (m & MOD_CONTROL != 0) == some_token_is(ts, n, "ctrl"@, "control"@)
            &&& (m & MOD_ALT != 0) == some_token_is(ts, n, "alt"@, "alt"@)
            &&& (m & MOD_SHIFT != 0) == some_token_is(ts, n, "shift"@, "shift"@)
            &&& (m & MOD_WIN != 0) == some_token_is(ts, n, "win"@, "windows"@)
        },
    decreases n,
{
    if n == 0 {
        assert(0x4000u32 & 0x4000 != 0 && 0x4000u32 & 0xFFFF_BFF0 == 0 && 0x4000u32 & 1 == 0
            && 0x4000u32 & 2 == 0 && 0x4000u32 & 4 == 0 && 0x4000u32 & 8 == 0) by (bit_vector);
    } else {
        lemma_fold_modifier_names(ts, (n - 1) as nat);
        lemma_some_token_step(ts, n, "ctrl"@, "control"@);
        lemma_some_token_step(ts, n, "alt"@, "alt"@);
        lemma_some_token_step(ts, n, "shift"@, "shift"@);
        lemma_some_token_step(ts, n, "win"@, "windows"@);
        let t = ascii_lower_seq(ts[n - 1]);
        lemma_modifier_names(t);
        if let Some((m, vk, has)) = hotkey_fold(ts, (n - 1) as nat) {
            if let HotkeyToken::Modifier(bit) = classify_token(t) {
                lemma_or_flag(m, bit, MOD_NOREPEAT);
                lemma_or_flag(m, bit, MOD_CONTROL);
                lemma_or_flag(m, bit, MOD_ALT);
                lemma_or_flag(m, bit, MOD_SHIFT);
                lemma_or_flag(m, bit, MOD_WIN);
            }
        }
    }
}

/// The modifier flags of a parsed hotkey: `MOD_NOREPEAT` is always set,
/// no flag outside NOREPEAT / ALT / CONTROL / SHIFT / WIN is set, and each
/// modifier flag is set exactly when one of the tokens (case-insensitively)
/// names it: `ctrl` or `control`, `alt`, `shift`, `win` or `windows`.
pub proof fn law_hotkey_modifier_flags(spec: Seq<char>)
    ensures
        parse_hotkey_spec(spec) matches Some((mods, vk)) ==> {
            let ts = hotkey_tokens(spec);
            &&& mods & MOD_NOREPEAT != 0
            &&& mods & 0xFFFF_BFF0 == 0
            &&& (mods & MOD_CONTROL != 0) == some_token_is(ts, ts.len(), "ctrl"@, "control"@)
            &&& (mods & MOD_ALT != 0) == some_token_is(ts, ts.len(), "alt"@, "alt"@)
            &&& (mods & MOD_SHIFT != 0) == some_token_is(ts, ts.len(), "shift"@, "shift"@)
            &&& (mods & MOD_WIN != 0) == some_token_is(ts, ts.len(), "win"@, "windows"@)
        },
{
    let ts = hotkey_tokens(spec);
    lemma_fold_modifier_names(ts, ts.len());
}

fn chars_is(t: &Vec<char>, lit: &str) -> (r: bool)
    ensures
        r == (t@ == lit@),
{
    let l = chars_of(lit);
    crate::text::chars_eq(t, &l)
}

/// Parses the `f<N>` function-key token (`f1` .. `f24`).
pub fn parse_function_key(token: &Vec<char>) -> (r: Option<u32>)
    ensures
        r == function_key_spec(token@),
{
    if token.len() == 0 || token[0] != 'f' {
        return None;
    }
    let mut rest: Vec<char> = Vec::new();
    let mut i: usize = 1;
    while i < token.len()
        invariant
            1 <= i <= token@.len(),
            rest@ == token@.subrange(1, i as int),
        decreases token.len() - i,
    {
        rest.push(token[i]);
        assert(token@.subrange(1, i + 1) == token@.subrange(1, i as int).push(token@[i as int]));
        i = i + 1;
    }
    assert(rest@ == token@.drop_first());
    match parse_i32(&rest) {
        Some(n) => if 1 <= n && n <= 24 {
            Some(VK_F1 + (n - 1) as u32)
        } else {
            None
        },
        None => None,
    }
}

fn classify(t: &Vec<char>) -> (r: HotkeyToken)
    ensures
        r == classify_token(t@),
{
    if chars_is(t, "ctrl") || chars_is(t, "control") {
        HotkeyToken::Modifier(MOD_CONTROL)
    } else if chars_is(t, "alt") {
        HotkeyToken::Modifier(MOD_ALT)
    } else if chars_is(t, "shift") {
        HotkeyToken::Modifier(MOD_SHIFT)
    } else if chars_is(t, "win") || chars_is(t, "windows") {
        HotkeyToken::Modifier(MOD_WIN)
    } else if t.len() == 1 {
        let c = t[0];
        if 'a' <= c && c <= 'z' {
            HotkeyToken::Key((c as u32) - 32)
        } else if '0' <= c && c <= '9' {
            HotkeyToken::Key(c as u32)
        } else {
            HotkeyToken::Invalid
        }
    } else {
        match parse_function_key(t) {
            Some(v) => HotkeyToken::Key(v),
            None => {
                if chars_is(t, "printscreen") || chars_is(t, "prtsc") || chars_is(t, "snapshot") {
                    HotkeyToken::Key(VK_SNAPSHOT)
                } else if chars_is(t, "space") {
                    HotkeyToken::Key(VK_SPACE)
                } else {
                    HotkeyToken::Invalid
                }
            },
        }
    }
}

proof fn lemma_split_prefix_nonempty(s: Seq<char>, sep: char, n: nat)
    ensures
        split_prefix(s, sep, n).len() >= 1,
    decreases n,
{
    if n > 0 {
        lemma_split_prefix_nonempty(s, sep, (n - 1) as nat);
    }
}

/// Splits `s` on `sep`, as `str::split` does.
pub fn split_chars(s: &Vec<char>, sep: char) -> (r: Vec<Vec<char>>)
    ensures
        r@.len() == split_on(s@, sep).len(),
        forall|i: int| 0 <= i < r@.len() ==> #[trigger] r@[i]@ == split_on(s@, sep)[i],
{
    let mut done: Vec<Vec<char>> = Vec::new();
    let mut cur: Vec<char> = Vec::new();
    let mut i: usize = 0;
    while i < s.len()
        invariant
            i <= s@.len(),
            split_prefix(s@, sep, i as nat).len() == done@.len() + 1,
            forall|j: int| 0 <= j < done@.len() ==> #[trigger] done@[j]@ == split_prefix(s@, sep, i as nat)[j],
            cur@ == split_prefix(s@, sep, i as nat).last(),
        decreases s.len() - i,
    {
        proof {
            lemma_split_prefix_nonempty(s@, sep, i as nat);
        }
        let c = s[i];
        if c == sep {
            let piece = cur;
            done.push(piece);
            cur = Vec::new();
        } else {
            cur.push(c);
        }
        i = i + 1;
    }
    done.push(cur);
    done
}

/// Parses a hotkey specification such as `ctrl+shift+s` or `alt+f9` into
/// (modifier flags, virtual-key code).
pub fn parse_hotkey(spec: &str) -> (r: Option<(u32, u32)>)
    ensures
        r == parse_hotkey_spec(spec@),
{
    let cs = chars_of(spec);
    let mut end = cs.len();
    assert(cs@.subrange(0, end as int) == cs@);
    while end > 0 && cs[end - 1] == '+'
        invariant
            end <= cs@.len(),
            cs@ == spec@,
            trim_end_char(cs@, '+') == trim_end_char(cs@.subrange(0, end as int), '+'),
        decreases end,
    {
        assert(cs@.subrange(0, end as int).drop_last() == cs@.subrange(0, end - 1));
        end = end - 1;
    }
    let mut trimmed: Vec<char> = Vec::new();
    let mut i: usize = 0;
    while i < end
        invariant
            end <= cs@.len(),
            i <= end,
            trimmed@ == cs@.subrange(0, i as int),
        decreases end - i,
    {
        trimmed.push(cs[i]);
        assert(cs@.subrange(0, i + 1) == cs@.subrange(0, i as int).push(cs@[i as int]));
        i = i + 1;
    }
    assert(trimmed@ == trim_end_char(spec@, '+')) by {
        assert(cs@.subrange(0, end as int) == trimmed@);
    }
    let tokens = split_chars(&trimmed, '+');
    let ghost ts = hotkey_tokens(spec@);
    let mut mods: u32 = MOD_NOREPEAT;
    let mut vk: u32 = 0;
    let mut has_modifier = false;
    let mut k: usize = 0;
    while k < tokens.len()
        invariant
            ts == hotkey_tokens(spec@),
            tokens@.len() == ts.len(),
            forall|i: int| 0 <= i < tokens@.len() ==> #[trigger] tokens@[i]@ == ts[i],
            k <= tokens@.len(),
            hotkey_fold(ts, k as nat) == Some((mods, vk, has_modifier)),
        decreases tokens.len() - k,
    {
        let token = lower_chars(&tokens[k]);
        assert(token@ == ascii_lower_seq(ts[k as int]));
        if token.len() == 0 {
            assert(hotkey_fold(ts, (k + 1) as nat) is None);
            assert(hotkey_fold(ts, ts.len()) is None) by {
                lemma_fold_stays_none(ts, (k + 1) as nat, ts.len());
            }
            return None;
        }
        match classify(&token) {
            HotkeyToken::Modifier(bit) => {
                mods = mods | bit;
                has_modifier = true;
            },
            HotkeyToken::Key(key) => {
                if vk != 0 {
                    proof {
                        lemma_fold_stays_none(ts, (k + 1) as nat, ts.len());
                    }
                    return None;
                }
                vk = key;
            },
            HotkeyToken::Invalid => {
                proof {
                    lemma_fold_stays_none(ts, (k + 1) as nat, ts.len());
                }
                return None;
            },
        }
        k = k + 1;
    }
    if has_modifier && vk != 0 {
        Some((mods, vk))
    } else {
        None
    }
}

proof fn lemma_fold_stays_none(ts: Seq<Seq<char>>, k: nat, n: nat)
    requires
        k <= n,
        hotkey_fold(ts, k) is None,
    ensures
        hotkey_fold(ts, n) is None,
    decreases n - k,
{
    if k < n {
        assert(hotkey_fold(ts, k + 1) is None);
        lemma_fold_stays_none(ts, k + 1, n);
    }
}

/// A rejected argument combination, with the message shown to the user.
#[derive(Debug)]
pub struct ValidationError {
    pub message: String,
}

impl ValidationError {
    pub fn new(message: &str) -> (e: Self)
        ensures
            e.message@ == message@,
    {
        ValidationError { message: message.to_owned() }
    }
}

/// Why a capture method is refused, if it is: only `wgc-window` and
/// `wgc-monitor` exist; the removed `wgc-window2` / `wgc-monitor2` aliases
/// are refused with the name of their replacement.
pub open spec fn method_rejection(method: Seq<char>) -> Option<Seq<char>> {
    if method == "wgc-window"@ || method == "wgc-monitor"@ {
        None
    } else if method == "wgc-window2"@ {
        Some("method 'wgc-window2' was removed; use wgc-window"@)
    } else if method == "wgc-monitor2"@ {
        Some("method 'wgc-monitor2' was removed; use wgc-monitor"@)
    } else {
        Some("unknown method '"@ + method + "' (supported: wgc-window, wgc-monitor)"@)
    }
}

/// Checks the `--method` value; `None` when it is accepted.
pub fn check_method(method: &str) -> (r: Option<String>)
    ensures
        match method_rejection(method@) {
            Some(m) => r matches Some(s) && s@ == m,
            None => r is None,
        },
{
    if str_eq(method, "wgc-window") || str_eq(method, "wgc-monitor") {
        None
    } else if str_eq(method, "wgc-window2") {
        Some("method 'wgc-window2' was removed; use wgc-window".to_owned())
    } else if str_eq(method, "wgc-monitor2") {
        Some("method 'wgc-monitor2' was removed; use wgc-monitor".to_owned())
    } else {
        let mut m = "unknown method '".to_owned();
        m.append(method);
        m.append("' (supported: wgc-window, wgc-monitor)");
        Some(m)
    }
}

/// The `cap` command's arguments as read from the command line.
#[derive(Debug)]
pub struct CapCli {
    pub method: String,
    pub target: TargetType,
    pub out_path: String,
    pub stdout: bool,
    pub hwnd: Option<u64>,
    pub pid: Option<i32>,
    pub foreground: bool,
    pub title: Option<String>,
    pub class_name: Option<String>,
    pub monitor: Option<String>,
    pub virtual_screen: bool,
    pub crop: CropMode,
    /// Exactly four values (X Y W H) when present.
    pub crop_rect: Option<Vec<i32>>,
    /// Exactly four values (L T R B) when present.
    pub pad: Option<Vec<i32>>,
    pub format: String,
    pub force_alpha: Option<i32>,
    pub hotkey: Option<String>,
    pub hotkey_foreground: bool,
    pub cursor: bool,
}

impl CapCli {
    /// Value lists have the lengths the command line enforces.
    pub open spec fn wf(&self) -> bool {
        &&& (self.crop_rect matches Some(v) ==> v@.len() == 4)
        &&& (self.pad matches Some(v) ==> v@.len() == 4)
    }

    /// The window target carries at least one lookup criterion.
    pub open spec fn has_window_query(&self) -> bool {
        self.hwnd is Some || self.pid is Some || self.foreground || self.title is Some
            || self.class_name is Some
    }

    /// The first rule the arguments break, with its message, if any.
    pub open spec fn rejection(&self) -> Option<Seq<char>> {
        if method_rejection(self.method@) is Some {
            method_rejection(self.method@)
        } else if self.stdout {
            Some("--stdout is not supported in this version"@)
        } else if self.format@ != "png"@ {
            Some("only --format png is supported"@)
        } else if validate_output_path_spec(self.out_path@) is Err {
            match validate_output_path_spec(self.out_path@) {
                Err(reason) => Some(reason),
                Ok(()) => None,
            }
        } else if self.crop == CropMode::Manual && self.crop_rect is None {
            Some("manual crop needs --crop-rect"@)
        } else if self.target == TargetType::Window && !self.has_window_query() {
            Some("window target needs one of --hwnd/--pid/--foreground/--title/--class"@)
        } else if self.target == TargetType::Screen && self.monitor is None && !self.virtual_screen {
            Some("screen target needs --monitor or --virtual-screen"@)
        } else if self.force_alpha matches Some(a) && a != 255 {
            Some("--force-alpha only supports 255"@)
        } else if self.hotkey matches Some(h) && parse_hotkey_spec(h@) is None {
            Some("invalid --hotkey (ex: ctrl+shift+s, alt+f9)"@)
        } else if self.hotkey is None && self.hotkey_foreground {
            Some("--hotkey-foreground needs --hotkey"@)
        } else {
            None
        }
    }

    /// `o` carries these arguments: the same method, target, output path,
    /// lookup criteria and crop settings, `--hotkey-foreground` folded into
    /// the foreground lookup, and the parsed hotkey.
    pub open spec fn options_match(&self, o: CapOptions) -> bool {
        &&& o.method == self.method
        &&& o.target == self.target
        &&& o.out_path == self.out_path
        &&& o.window_query.hwnd == self.hwnd
        &&& o.window_query.pid == self.pid
        &&& o.window_query.foreground == (self.foreground || self.hotkey_foreground)
        &&& o.window_query.title == self.title
        &&& o.window_query.class_name == self.class_name
        &&& o.screen_query.monitor == self.monitor
        &&& o.screen_query.virtual_screen == self.virtual_screen
        &&& o.crop_mode == self.crop
        &&& o.crop_rect == (match self.crop_rect {
            Some(v) => Some(CropRect { x: v@[0], y: v@[1], w: v@[2], h: v@[3] }),
            None => None,
        })
        &&& o.pad == (match self.pad {
            Some(v) => Pad { l: v@[0], t: v@[1], r: v@[2], b: v@[3] },
            None => Pad { l: 0, t: 0, r: 0, b: 0 },
        })
        &&& o.force_alpha_255 == (self.force_alpha is Some)
        &&& o.include_cursor == self.cursor
        &&& match self.hotkey {
            Some(h) => {
                &&& o.hotkey_enabled
                &&& o.hotkey_spec == h
                &&& Some((o.hotkey_modifiers, o.hotkey_vk)) == parse_hotkey_spec(h@)
            },
            None => {
                &&& !o.hotkey_enabled
                &&& o.hotkey_spec@ == Seq::<char>::empty()
                &&& o.hotkey_modifiers == 0
                &&& o.hotkey_vk == 0
            },
        }
    }

    /// Checks the argument combination and maps it to [`CapOptions`].
    /// `--hotkey-foreground` forces the foreground-window lookup.
    pub fn into_options(self) -> (res: Result<CapOptions, ValidationError>)
        requires
            self.wf(),
        ensures
            match self.rejection() {
                Some(msg) => res matches Err(e) && e.message@ == msg,
                None => res matches Ok(o) && self.options_match(o),
            },
    {
        if let Some(message) = check_method(self.method.as_str()) {
            return Err(ValidationError { message });
        }
        if self.stdout {
            return Err(ValidationError::new("--stdout is not supported in this version"));
        }
        if !str_eq(self.format.as_str(), "png") {
            return Err(ValidationError::new("only --format png is supported"));
        }
        match validate_output_path(self.out_path.as_str()) {
            Err(reason) => {
                return Err(ValidationError { message: reason });
            },
            Ok(()) => {},
        }
        let crop_rect = match &self.crop_rect {
            Some(values) => Some(CropRect { x: values[0], y: values[1], w: values[2], h: values[3] }),
            None => None,
        };
        let crop_mode = self.crop;
        if crop_mode == CropMode::Manual && crop_rect.is_none() {
            return Err(ValidationError::new("manual crop needs --crop-rect"));
        }
        let pad = match &self.pad {
            Some(values) => Pad { l: values[0], t: values[1], r: values[2], b: values[3] },
            None => Pad::default(),
        };
        let target = self.target;
        if target == TargetType::Window {
            let has_window_target = self.hwnd.is_some() || self.pid.is_some() || self.foreground
                || self.title.is_some() || self.class_name.is_some();
            if !has_window_target {
                return Err(
                    ValidationError::new(
                        "window target needs one of --hwnd/--pid/--foreground/--title/--class",
                    ),
                );
            }
        } else if self.monitor.is_none() && !self.virtual_screen {
            return Err(ValidationError::new("screen target needs --monitor or --virtual-screen"));
        }
        let force_alpha_255 = match self.force_alpha {
            Some(a) => {
                if a != 255 {
                    return Err(ValidationError::new("--force-alpha only supports 255"));
                }
                true
            },
            None => false,
        };
        let hotkey_foreground = self.hotkey_foreground;
        let (hotkey_enabled, hotkey_spec, hotkey_modifiers, hotkey_vk) = match self.hotkey {
            Some(spec) => {
                match parse_hotkey(spec.as_str()) {
                    Some((mods, vk)) => (true, spec, mods, vk),
                    None => {
                        return Err(
                            ValidationError::new("invalid --hotkey (ex: ctrl+shift+s, alt+f9)"),
                        );
                    },
                }
            },
            None => {
                if hotkey_foreground {
                    return Err(ValidationError::new("--hotkey-foreground needs --hotkey"));
                }
                (false, String::new(), 0, 0)
            },
        };
        let window_query = TargetWindowQuery {
            hwnd: self.hwnd,
            pid: self.pid,
            foreground: self.foreground || hotkey_foreground,
            title: self.title,
            class_name: self.class_name,
        };
        let screen_query = TargetScreenQuery {
            monitor: self.monitor,
            virtual_screen: self.virtual_screen,
        };
        Ok(
            CapOptions {
                method: self.method,
                target,
                out_path: self.out_path,
                hotkey_enabled,
                hotkey_spec,
                hotkey_modifiers,
                hotkey_vk,
                window_query,
                screen_query,
                crop_mode,
                crop_rect,
                pad,
                force_alpha_255,
                include_cursor: self.cursor,
            },
        )
    }
}

/// Name of a target type as reported in JSON output.
pub fn target_type_name(t: TargetType) -> (r: &'static str)
    ensures
        r@ == (match t {
            TargetType::Window => "window"@,
            TargetType::Screen => "screen"@,
        }),
{
    match t {
        TargetType::Window => "window",
        TargetType::Screen => "screen",
    }
}

/// Name of a crop mode, as written after `--crop` and reported in JSON
/// output.
pub open spec fn crop_mode_name_spec(m: CropMode) -> Seq<char> {
    match m {
        CropMode::NoCrop => "none"@,
        CropMode::Window => "window"@,
        CropMode::Client => "client"@,
        CropMode::DwmFrame => "dwm-frame"@,
        CropMode::Manual => "manual"@,
    }
}

/// The crop mode a `--crop` value names; names are matched exactly.
pub open spec fn crop_mode_from_name_spec(name: Seq<char>) -> Option<CropMode> {
    if name == "none"@ {
        Some(CropMode::NoCrop)
    } else if name == "window"@ {
        Some(CropMode::Window)
    } else if name == "client"@ {
        Some(CropMode::Client)
    } else if name == "dwm-frame"@ {
        Some(CropMode::DwmFrame)
    } else if name == "manual"@ {
        Some(CropMode::Manual)
    } else {
        None
    }
}

/// Name of a crop mode as reported in JSON output.
pub fn crop_mode_name(m: CropMode) -> (r: &'static str)
    ensures
        r@ == crop_mode_name_spec(m),
{
    match m {
        CropMode::NoCrop => "none",
        CropMode::Window => "window",
        CropMode::Client => "client",
        CropMode::DwmFrame => "dwm-frame",
        CropMode::Manual => "manual",
    }
}

/// Reads a `--crop` value; `None` when it names no crop mode.
pub fn crop_mode_from_name(name: &str) -> (r: Option<CropMode>)
    ensures
        r == crop_mode_from_name_spec(name@),
{
    if str_eq(name, "none") {
        Some(CropMode::NoCrop)
    } else if str_eq(name, "window") {
        Some(CropMode::Window)
    } else if str_eq(name, "client") {
        Some(CropMode::Client)
    } else if str_eq(name, "dwm-frame") {
        Some(CropMode::DwmFrame)
    } else if str_eq(name, "manual") {
        Some(CropMode::Manual)
    } else {
        None
    }
}

/// Reading a crop mode's name gives that crop mode back.
pub proof fn law_crop_mode_name_roundtrip(m: CropMode)
    ensures
        crop_mode_from_name_spec(crop_mode_name_spec(m)) == Some(m),
{
    reveal_strlit("none");
    reveal_strlit("window");
    reveal_strlit("client");
    reveal_strlit("dwm-frame");
    reveal_strlit("manual");
    assert("window"@[0] != "none"@[0]);
    assert("client"@[0] != "none"@[0] && "client"@[0] != "window"@[0]);
    assert("dwm-frame"@[0] != "none"@[0] && "dwm-frame"@[0] != "window"@[0]
        && "dwm-frame"@[0] != "client"@[0]);
    assert("manual"@[0] != "none"@[0] && "manual"@[0] != "window"@[0]
        && "manual"@[0] != "client"@[0] && "manual"@[0] != "dwm-frame"@[0]);
}

/// The parsed command line.
#[derive(Debug)]
pub struct ParsedArgs {
    pub command: CommandType,
    pub common: CommonOptions,
    pub cap: CapOptions,
    /// The raw arguments joined by single spaces.
    pub raw_args: String,
}

/// Help is shown when there is no subcommand or the subcommand is `help`.
pub open spec fn wants_help_spec(argv: Seq<String>) -> bool {
    argv.len() <= 1 || argv[1]@ == "help"@
}

/// Whether the arguments ask for the help text.
pub fn wants_help(argv: &Vec<String>) -> (r: bool)
    ensures
        r == wants_help_spec(argv@),
{
    argv.len() <= 1 || str_eq(argv[1].as_str(), "help")
}

/// The first `n` arguments joined by single spaces.
pub open spec fn join_spec(argv: Seq<String>, n: nat) -> Seq<char>
    decreases n,
{
    if n == 0 {
        Seq::empty()
    } else if n == 1 {
        argv[0]@
    } else {
        join_spec(argv, (n - 1) as nat) + " "@ + argv[n - 1]@
    }
}

/// The arguments joined by single spaces.
pub fn join_args(argv: &Vec<String>) -> (r: String)
    ensures
        r@ == join_spec(argv@, argv@.len()),
{
    let mut out = String::new();
    let mut i: usize = 0;
    while i < argv.len()
        invariant
            i <= argv@.len(),
            out@ == join_spec(argv@, i as nat),
        decreases argv.len() - i,
    {
        if i > 0 {
            out.append(" ");
        }
        out.append(argv[i].as_str());
        proof {
            reveal_strlit(" ");
            if i == 0 {
                assert(out@ =~= join_spec(argv@, 1));
            }
        }
        i = i + 1;
    }
    out
}

/// Assembles the parsed command line: the subcommand (with the `cap`
/// arguments for `cap`, which are validated; the `list` commands carry
/// default capture options), the global options and the raw arguments.
pub fn parsed_args_from(
    argv: &Vec<String>,
    command: CommandType,
    common: CommonOptions,
    cap: Option<CapCli>,
) -> (r: Result<ParsedArgs, ValidationError>)
    requires
        command == CommandType::Cap <==> cap is Some,
        cap matches Some(c) ==> c.wf(),
    ensures
        match cap {
            Some(c) => match c.rejection() {
                Some(msg) => r matches Err(e) && e.message@ == msg,
                None => r matches Ok(p) && p.command == command && p.common == common
                    && c.options_match(p.cap) && p.raw_args@ == join_spec(argv@, argv@.len()),
            },
            None => r matches Ok(p) && p.command == command && p.common == common
                && p.cap.is_default() && p.raw_args@ == join_spec(argv@, argv@.len()),
        },
{
    let raw_args = join_args(argv);
    let cap_options = match cap {
        Some(c) => match c.into_options() {
            Ok(o) => o,
            Err(e) => {
                return Err(e);
            },
        },
        None => CapOptions::default(),
    };
    Ok(ParsedArgs { command, common, cap: cap_options, raw_args })
}

proof fn lemma_add_modifier(m: u32, b: u32)
    requires
        m & 0x4000u32 == 0x4000u32,
        m & !0x400Fu32 == 0,
        b == 1 || b == 2 || b == 4 || b == 8,
    ensures
        (m | b) & 0x4000u32 == 0x4000u32,
        (m | b) & !0x400Fu32 == 0,
        (m | b) & 0xFu32 != 0,
{
    assert((m | b) & 0x4000u32 == 0x4000u32 && (m | b) & !0x400Fu32 == 0 && (m | b) & 0xFu32 != 0)
        by (bit_vector)
        requires
            m & 0x4000u32 == 0x4000u32,
            m & !0x400Fu32 == 0,
            b == 1 || b == 2 || b == 4 || b == 8,
    ;
}

proof fn lemma_fold_flags(tokens: Seq<Seq<char>>, n: nat)
    requires
        n <= tokens.len(),
    ensures
        hotkey_fold(tokens, n) matches Some((mods, vk, has)) ==> {
            &&& mods & MOD_NOREPEAT == MOD_NOREPEAT
            &&& mods & !0x400Fu32 == 0
            &&& has ==> mods & 0xFu32 != 0
        },
    decreases n,
{
    if n == 0 {
        assert(0x4000u32 & 0x4000u32 == 0x4000u32 && 0x4000u32 & !0x400Fu32 == 0) by (bit_vector);
    } else {
        lemma_fold_flags(tokens, (n - 1) as nat);
        if let Some((mods, vk, has)) = hotkey_fold(tokens, (n - 1) as nat) {
            let t = ascii_lower_seq(tokens[n - 1]);
            if t.len() > 0 {
                if let HotkeyToken::Modifier(bit) = classify_token(t) {
                    lemma_add_modifier(mods, bit);
                }
            }
        }
    }
}

/// A parsed hotkey always carries the no-repeat flag, at least one of the
/// four modifiers and no other flag, and a key.
pub proof fn law_parsed_hotkey_flags(spec: Seq<char>)
    ensures
        parse_hotkey_spec(spec) matches Some((mods, vk)) ==> {
            &&& mods & MOD_NOREPEAT == MOD_NOREPEAT
            &&& mods & (MOD_ALT | MOD_CONTROL | MOD_SHIFT | MOD_WIN) != 0
            &&& mods & !(MOD_NOREPEAT | MOD_ALT | MOD_CONTROL | MOD_SHIFT | MOD_WIN) == 0
            &&& vk != 0
        },
{
    let tokens = hotkey_tokens(spec);
    lemma_fold_flags(tokens, tokens.len());
    assert(MOD_ALT | MOD_CONTROL | MOD_SHIFT | MOD_WIN == 0xFu32) by (bit_vector);
    assert(MOD_NOREPEAT | MOD_ALT | MOD_CONTROL | MOD_SHIFT | MOD_WIN == 0x400Fu32) by (bit_vector);
}

} // verus!
