//! UTF-16 conversion and output-path validation.

use vstd::prelude::*;

use crate::text::{chars_of, string_from_chars};

verus! {

/// `char::from_u32` yields the character with scalar value `i`, or `None`
/// when `i` is a surrogate or above `0x10FFFF`.
pub assume_specification[ char::from_u32 ](i: u32) -> (r: Option<char>)
    ensures
        (r is Some) <==> (i < 0xD800 || (0xDFFF < i && i <= 0x10FFFF)),
        r matches Some(c) ==> c as u32 == i,
;

/// UTF-16 code units of one character.
pub open spec fn utf16_of_char(c: char) -> Seq<u16> {
    let v = c as u32;
    if v < 0x10000 {
        seq![v as u16]
    } else {
        let u = v - 0x10000;
        seq![(0xD800 + u / 0x400) as u16, (0xDC00 + u % 0x400) as u16]
    }
}

/// UTF-16 encoding of a character sequence.
pub open spec fn encode_utf16(s: Seq<char>) -> Seq<u16>
    decreases s.len(),
{
    if s.len() == 0 {
        Seq::empty()
    } else {
        encode_utf16(s.drop_last()) + utf16_of_char(s.last())
    }
}

pub open spec fn is_high_surrogate(u: u16) -> bool {
    0xD800 <= u && u <= 0xDBFF
}

pub open spec fn is_low_surrogate(u: u16) -> bool {
    0xDC00 <= u && u <= 0xDFFF
}

/// Scalar value of a surrogate pair.
pub open spec fn combine_surrogates(hi: u16, lo: u16) -> u32 {
    (0x10000 + (hi - 0xD800) * 0x400 + (lo - 0xDC00)) as u32
}

/// The replacement character used for unpaired surrogates.
pub open spec fn replacement_char() -> char {
    '\u{FFFD}'
}

/// Lossy UTF-16 decoding: each valid unit or surrogate pair becomes its
/// character; each unpaired surrogate becomes U+FFFD.
pub open spec fn decode_utf16_lossy(ws: Seq<u16>) -> Seq<char>
    decreases ws.len(),
{
    if ws.len() == 0 {
        Seq::empty()
    } else {
        let u = ws[0];
        if !is_high_surrogate(u) && !is_low_surrogate(u) {
            seq![(u as u32) as char] + decode_utf16_lossy(ws.drop_first())
        } else if is_high_surrogate(u) && ws.len() >= 2 && is_low_surrogate(ws[1]) {
            seq![combine_surrogates(u, ws[1]) as char] + decode_utf16_lossy(
                ws.subrange(2, ws.len() as int),
            )
        } else {
            seq![replacement_char()] + decode_utf16_lossy(ws.drop_first())
        }
    }
}

/// UTF-8 -> UTF-16 (no trailing NUL).
pub fn wide_from_utf8(s: &str) -> (r: Vec<u16>)
    ensures
        r@ == encode_utf16(s@),
{
    let cs = chars_of(s);
    let mut out: Vec<u16> = Vec::new();
    let mut i: usize = 0;
    while i < cs.len()
        invariant
            cs@ == s@,
            i <= cs@.len(),
            out@ == encode_utf16(cs@.take(i as int)),
        decreases cs.len() - i,
    {
        let c = cs[i];
        let v = c as u32;
        assert(cs@.take(i + 1).drop_last() == cs@.take(i as int));
        if v < 0x10000 {
            out.push(v as u16);
        } else {
            proof {
                vstd::utf8::char_is_scalar(c);
            }
            let u = v - 0x10000;
            out.push((0xD800 + u / 0x400) as u16);
            out.push((0xDC00 + u % 0x400) as u16);
        }
        i = i + 1;
    }
    assert(cs@.take(cs@.len() as int) == cs@);
    out
}

/// UTF-16 slice (no trailing NUL) -> UTF-8, lossy.
pub fn utf8_from_wide(ws: &[u16]) -> (r: String)
    ensures
        r@ == decode_utf16_lossy(ws@),
{
    let mut out: Vec<char> = Vec::new();
    let mut i: usize = 0;
    assert(ws@.subrange(0, ws@.len() as int) == ws@);
    assert(out@ + decode_utf16_lossy(ws@) =~= decode_utf16_lossy(ws@));
    while i < ws.len()
        invariant
            i <= ws@.len(),
            out@ + decode_utf16_lossy(ws@.subrange(i as int, ws@.len() as int)) == decode_utf16_lossy(
                ws@,
            ),
        decreases ws.len() - i,
    {
        let ghost rest = ws@.subrange(i as int, ws@.len() as int);
        let ghost old_out = out@;
        let u = ws[i];
        assert(rest[0] == u);
        if u < 0xD800 || u > 0xDFFF {
            let c = char::from_u32(u as u32);
            match c {
                Some(ch) => {
                    out.push(ch);
                    proof {
                        assert(rest.drop_first() == ws@.subrange(i + 1, ws@.len() as int));
                        vstd::utf8::char_u32_cast(ch, u as u32);
                        assert(decode_utf16_lossy(rest) == seq![ch] + decode_utf16_lossy(
                            rest.drop_first(),
                        ));
                        assert(old_out + (seq![ch] + decode_utf16_lossy(rest.drop_first())) =~= out@
                            + decode_utf16_lossy(rest.drop_first()));
                    }
                },
                None => {
                    assert(false);
                },
            }
            i = i + 1;
        } else if u <= 0xDBFF && i + 1 < ws.len() && 0xDC00 <= ws[i + 1] && ws[i + 1] <= 0xDFFF {
            let lo = ws[i + 1];
            assert(rest[1] == lo);
            let v: u32 = 0x10000 + ((u - 0xD800) as u32) * 0x400 + ((lo - 0xDC00) as u32);
            let c = char::from_u32(v);
            match c {
                Some(ch) => {
                    out.push(ch);
                    proof {
                        assert(rest.subrange(2, rest.len() as int) == ws@.subrange(
                            i + 2,
                            ws@.len() as int,
                        ));
                        assert(combine_surrogates(u, lo) == v);
                        vstd::utf8::char_u32_cast(ch, v);
                        assert(decode_utf16_lossy(rest) == seq![ch] + decode_utf16_lossy(
                            rest.subrange(2, rest.len() as int),
                        ));
                        assert(old_out + (seq![ch] + decode_utf16_lossy(
                            rest.subrange(2, rest.len() as int),
                        )) =~= out@ + decode_utf16_lossy(rest.subrange(2, rest.len() as int)));
                    }
                },
                None => {
                    assert(false);
                },
            }
            i = i + 2;
        } else {
            out.push('\u{FFFD}');
            proof {
                assert(rest.drop_first() == ws@.subrange(i + 1, ws@.len() as int));
                assert(decode_utf16_lossy(rest) == seq![replacement_char()] + decode_utf16_lossy(
                    rest.drop_first(),
                ));
                assert(old_out + (seq![replacement_char()] + decode_utf16_lossy(rest.drop_first()))
                    =~= out@ + decode_utf16_lossy(rest.drop_first()));
            }
            i = i + 1;
        }
    }
    proof {
        assert(ws@.subrange(i as int, ws@.len() as int) == Seq::<u16>::empty());
        assert(out@ + Seq::<char>::empty() == out@);
    }
    string_from_chars(&out)
}

proof fn lemma_encode_utf16_front(s: Seq<char>)
    requires
        s.len() > 0,
    ensures
        encode_utf16(s) == utf16_of_char(s[0]) + encode_utf16(s.drop_first()),
    decreases s.len(),
{
    if s.len() == 1 {
        assert(s.drop_last() == Seq::<char>::empty());
        assert(s.drop_first() == Seq::<char>::empty());
        assert(encode_utf16(s.drop_last()) == Seq::<u16>::empty());
        assert(Seq::<u16>::empty() + utf16_of_char(s[0]) == utf16_of_char(s[0]));
        assert(utf16_of_char(s[0]) + Seq::<u16>::empty() == utf16_of_char(s[0]));
    } else {
        lemma_encode_utf16_front(s.drop_last());
        assert(s.drop_last().drop_first() == s.drop_first().drop_last());
        assert(s.drop_first().last() == s.last());
        assert(s.drop_last()[0] == s[0]);
    }
}

proof fn lemma_decode_one_char(c: char, tail: Seq<u16>)
    ensures
        decode_utf16_lossy(utf16_of_char(c) + tail) == seq![c] + decode_utf16_lossy(tail),
{
    vstd::utf8::char_is_scalar(c);
    let v = c as u32;
    let ws = utf16_of_char(c) + tail;
    if v < 0x10000 {
        assert(ws[0] == v as u16);
        assert(ws.drop_first() == tail);
        assert(((v as u16) as u32) as char == c) by {
            vstd::utf8::char_u32_cast(c, v);
        }
    } else {
        let u = v - 0x10000;
        assert(ws[0] == (0xD800 + u / 0x400) as u16);
        assert(ws[1] == (0xDC00 + u % 0x400) as u16);
        assert(ws.subrange(2, ws.len() as int) == tail);
        assert(combine_surrogates(ws[0], ws[1]) == v);
        assert((v as u32) as char == c) by {
            vstd::utf8::char_u32_cast(c, v);
        }
    }
}

/// Decoding the UTF-16 encoding of any text gives the text back.
pub proof fn law_utf16_roundtrip(s: Seq<char>)
    ensures
        decode_utf16_lossy(encode_utf16(s)) == s,
    decreases s.len(),
{
    if s.len() > 0 {
        lemma_encode_utf16_front(s);
        lemma_decode_one_char(s[0], encode_utf16(s.drop_first()));
        law_utf16_roundtrip(s.drop_first());
        assert(seq![s[0]] + s.drop_first() == s);
    }
}

/// Characters with the Unicode `White_Space` property (what `str::trim`
/// removes).
pub open spec fn is_unicode_whitespace(c: char) -> bool {
    let v = c as u32;
    (0x09 <= v && v <= 0x0D) || v == 0x20 || v == 0x85 || v == 0xA0 || v == 0x1680 || (0x2000 <= v
        && v <= 0x200A) || v == 0x2028 || v == 0x2029 || v == 0x202F || v == 0x205F || v == 0x3000
}

pub fn is_whitespace_char(c: char) -> (r: bool)
    ensures
        r == is_unicode_whitespace(c),
{
    let v = c as u32;
    (0x09 <= v && v <= 0x0D) || v == 0x20 || v == 0x85 || v == 0xA0 || v == 0x1680 || (0x2000 <= v
        && v <= 0x200A) || v == 0x2028 || v == 0x2029 || v == 0x202F || v == 0x205F || v == 0x3000
}

/// The text is empty after trimming whitespace.
pub open spec fn is_blank(s: Seq<char>) -> bool {
    forall|i: int| 0 <= i < s.len() ==> #[trigger] is_unicode_whitespace(s[i])
}

/// Characters Windows forbids in a path (excluding the `:` drive separator
/// and the `\`/`/` path separators, which are handled elsewhere).
pub open spec fn is_invalid_path_char(c: char) -> bool {
    c == '<' || c == '>' || c == '"' || c == '|' || c == '?' || c == '*'
}

pub open spec fn is_path_sep(c: char) -> bool {
    c == '/' || c == '\\'
}

/// The rejection caused by the first control or invalid character at or
/// after position `i`, if any.
pub open spec fn bad_char_error(s: Seq<char>, i: nat) -> Option<Seq<char>>
    decreases s.len() - i,
{
    if i >= s.len() {
        None
    } else if (s[i as int] as u32) < 0x20 {
        Some("Output path contains a control character."@)
    } else if is_invalid_path_char(s[i as int]) {
        Some("Output path contains an invalid character: "@.push(s[i as int]))
    } else {
        bad_char_error(s, i + 1)
    }
}

/// Index of the first separator at or after `i` (the length when none).
pub open spec fn next_sep_from(s: Seq<char>, i: nat) -> nat
    decreases s.len() - i,
{
    if i >= s.len() {
        s.len()
    } else if is_path_sep(s[i as int]) {
        i
    } else {
        next_sep_from(s, i + 1)
    }
}

pub open spec fn is_ascii_alpha(c: char) -> bool {
    ('a' <= c && c <= 'z') || ('A' <= c && c <= 'Z')
}

/// Length of the Windows path prefix: `X:` (drive), `\\.\device`, or
/// `\\server\share` (either separator); 0 when there is none. Verbatim
/// `\\?\` prefixes are not recognised: `?` is rejected before this is
/// consulted.
pub open spec fn windows_prefix_len(s: Seq<char>) -> nat {
    if s.len() >= 2 && is_path_sep(s[0]) && is_path_sep(s[1]) {
        if s.len() >= 4 && s[2] == '.' && is_path_sep(s[3]) {
            next_sep_from(s, 4)
        } else {
            let server_end = next_sep_from(s, 2);
            if server_end == 2 || server_end >= s.len() {
                0
            } else {
                let share_end = next_sep_from(s, server_end + 1);
                if share_end == server_end + 1 {
                    0
                } else {
                    share_end
                }
            }
        }
    } else if s.len() >= 2 && is_ascii_alpha(s[0]) && s[1] == ':' {
        2
    } else {
        0
    }
}

/// Index of the last separator in `r`, or -1.
pub open spec fn last_sep(r: Seq<char>) -> int
    decreases r.len(),
{
    if r.len() == 0 {
        -1
    } else if is_path_sep(r.last()) {
        r.len() - 1
    } else {
        last_sep(r.drop_last())
    }
}

/// The last path component that is neither empty nor `.` (components are
/// separated by `/` or `\\`).
pub open spec fn last_named_segment(r: Seq<char>) -> Option<Seq<char>>
    decreases r.len(),
{
    let k = last_sep(r);
    let seg = r.subrange(k + 1, r.len() as int);
    if seg.len() > 0 && seg != seq!['.'] {
        Some(seg)
    } else if k < 0 || k >= r.len() {
        None
    } else {
        last_named_segment(r.subrange(0, k))
    }
}

/// Whether the path has a file-name component under Windows path rules: the
/// last component after the prefix that is not empty or `.` exists and is
/// not `..`.
pub open spec fn has_file_name(s: Seq<char>) -> bool {
    let p = windows_prefix_len(s);
    match last_named_segment(s.subrange(p as int, s.len() as int)) {
        Some(seg) => seg != seq!['.', '.'],
        None => false,
    }
}

/// The outcome of [`validate_output_path`].
pub open spec fn validate_output_path_spec(s: Seq<char>) -> Result<(), Seq<char>> {
    if is_blank(s) {
        Err("Output path is empty."@)
    } else if bad_char_error(s, 0) is Some {
        Err(bad_char_error(s, 0).unwrap())
    } else if (s.len() > 0 && is_path_sep(s.last())) || !has_file_name(s) {
        Err("Output path has no file name: "@ + s)
    } else {
        Ok(())
    }
}

proof fn lemma_no_bad_char(s: Seq<char>, i: nat)
    requires
        forall|j: int|
            i <= j < s.len() ==> (#[trigger] s[j] as u32) >= 0x20 && s[j] != '<' && s[j] != '>' && s[j]
                != '"' && s[j] != '|' && s[j] != '?' && s[j] != '*',
    ensures
        bad_char_error(s, i) is None,
    decreases s.len() - i,
{
    if i < s.len() {
        assert((s[i as int] as u32) >= 0x20);
        lemma_no_bad_char(s, i + 1);
    }
}

proof fn lemma_control_char_found(s: Seq<char>, i: nat, j: int)
    requires
        i <= j < s.len(),
        (s[j] as u32) < 0x20,
    ensures
        bad_char_error(s, i) is Some,
    decreases s.len() - i,
{
    if i < j {
        lemma_control_char_found(s, i + 1, j);
    }
}

/// Characters decide rejection only when they are control characters
/// (code below 0x20) or one of `< > " | ? *`: a path made of other
/// characters (spaces included) is accepted or rejected only for being
/// blank or having no file name, while a path holding a control character
/// is never accepted.
pub proof fn law_only_control_or_forbidden_chars_are_refused(s: Seq<char>)
    ensures
        (forall|j: int|
            0 <= j < s.len() ==> (#[trigger] s[j] as u32) >= 0x20 && s[j] != '<' && s[j] != '>'
                && s[j] != '"' && s[j] != '|' && s[j] != '?' && s[j] != '*') ==> {
            ||| validate_output_path_spec(s) is Ok
            ||| validate_output_path_spec(s) == Err::<(), Seq<char>>("Output path is empty."@)
            ||| validate_output_path_spec(s) == Err::<(), Seq<char>>("Output path has no file name: "@ + s)
        },
        (exists|j: int| 0 <= j < s.len() && (#[trigger] s[j] as u32) < 0x20) ==> validate_output_path_spec(
            s,
        ) is Err,
{
    if forall|j: int|
        0 <= j < s.len() ==> (#[trigger] s[j] as u32) >= 0x20 && s[j] != '<' && s[j] != '>' && s[j]
            != '"' && s[j] != '|' && s[j] != '?' && s[j] != '*' {
        lemma_no_bad_char(s, 0);
    }
    if exists|j: int| 0 <= j < s.len() && (#[trigger] s[j] as u32) < 0x20 {
        let j = choose|j: int| 0 <= j < s.len() && (#[trigger] s[j] as u32) < 0x20;
        lemma_control_char_found(s, 0, j);
    }
}

pub(crate) proof fn lemma_last_sep_bounds(r: Seq<char>)
    ensures
        -1 <= last_sep(r) < r.len(),
        last_sep(r) >= 0 ==> is_path_sep(r[last_sep(r)]),
        forall|j: int| last_sep(r) < j < r.len() ==> !is_path_sep(#[trigger] r[j]),
    decreases r.len(),
{
    if r.len() > 0 && !is_path_sep(r.last()) {
        lemma_last_sep_bounds(r.drop_last());
        assert forall|j: int| last_sep(r) < j < r.len() implies !is_path_sep(#[trigger] r[j]) by {
            if j < r.len() - 1 {
                assert(r[j] == r.drop_last()[j]);
            }
        }
    }
}

proof fn lemma_last_sep_prefix(r: Seq<char>, k: int)
    requires
        0 <= k <= r.len(),
        forall|j: int| k <= j < r.len() ==> !is_path_sep(#[trigger] r[j]),
    ensures
        last_sep(r) == last_sep(r.subrange(0, k)),
    decreases r.len() - k,
{
    if k < r.len() {
        assert(r.drop_last().subrange(0, k) == r.subrange(0, k));
        lemma_last_sep_prefix(r.drop_last(), k);
    } else {
        assert(r.subrange(0, k) == r);
    }
}

fn next_sep(s: &Vec<char>, i: usize) -> (r: usize)
    requires
        i <= s@.len(),
    ensures
        r == next_sep_from(s@, i as nat),
        i <= r <= s@.len(),
    decreases s.len() - i,
{
    if i >= s.len() {
        s.len()
    } else if s[i] == '/' || s[i] == '\\' {
        i
    } else {
        next_sep(s, i + 1)
    }
}

fn prefix_len(s: &Vec<char>) -> (r: usize)
    ensures
        r == windows_prefix_len(s@),
        r <= s@.len(),
{
    let n = s.len();
    if n >= 2 && (s[0] == '/' || s[0] == '\\') && (s[1] == '/' || s[1] == '\\') {
        if n >= 4 && s[2] == '.' && (s[3] == '/' || s[3] == '\\') {
            next_sep(s, 4)
        } else {
            let server_end = next_sep(s, 2);
            if server_end == 2 || server_end >= n {
                0
            } else {
                let share_end = next_sep(s, server_end + 1);
                if share_end == server_end + 1 {
                    0
                } else {
                    share_end
                }
            }
        }
    } else if n >= 2 && (('a' <= s[0] && s[0] <= 'z') || ('A' <= s[0] && s[0] <= 'Z')) && s[1]
        == ':' {
        2
    } else {
        0
    }
}

fn file_name_present(s: &Vec<char>) -> (r: bool)
    ensures
        r == has_file_name(s@),
{
    let p = prefix_len(s);
    let ghost rest = s@.subrange(p as int, s@.len() as int);
    let mut end: usize = s.len();
    loop
        invariant
            p <= end <= s@.len(),
            p == windows_prefix_len(s@),
            rest == s@.subrange(p as int, s@.len() as int),
            last_named_segment(rest) == last_named_segment(s@.subrange(p as int, end as int)),
        decreases end,
    {
        let ghost cur = s@.subrange(p as int, end as int);
        // find the last separator in s[p..end]
        let mut k: usize = end;
        while k > p && !(s[k - 1] == '/' || s[k - 1] == '\\')
            invariant
                p <= k <= end,
                end <= s@.len(),
                cur == s@.subrange(p as int, end as int),
                forall|j: int| k <= j < end ==> !is_path_sep(#[trigger] s@[j]),
            decreases k,
        {
            k = k - 1;
        }
        proof {
            lemma_last_sep_bounds(cur);
            assert forall|j: int| k - p <= j < cur.len() implies !is_path_sep(#[trigger] cur[j]) by {
                assert(cur[j] == s@[p + j]);
            }
            lemma_last_sep_prefix(cur, k - p);
            if k > p {
                assert(cur.subrange(0, k - p).last() == s@[k - 1]);
                assert(is_path_sep(cur.subrange(0, k - p).last()));
                assert(last_sep(cur.subrange(0, k - p)) == k - p - 1);
            } else {
                assert(cur.subrange(0, 0).len() == 0);
            }
        }
        let ghost ls = last_sep(cur);
        assert(ls == k - p - 1);
        // segment is s[k..end]
        let seg_len = end - k;
        let is_dot = seg_len == 1 && s[k] == '.';
        assert(cur.subrange(ls + 1, cur.len() as int) == s@.subrange(k as int, end as int));
        if seg_len > 0 && !is_dot {
            proof {
                let seg = s@.subrange(k as int, end as int);
                if seg == seq!['.'] {
                    assert(seg[0] == s@[k as int]);
                }
            }
            let is_dotdot = seg_len == 2 && s[k] == '.' && s[k + 1] == '.';
            proof {
                let seg = s@.subrange(k as int, end as int);
                if seg == seq!['.', '.'] {
                    assert(seg[0] == s@[k as int] && seg[1] == s@[k + 1]);
                }
                if is_dotdot {
                    assert(seg =~= seq!['.', '.']);
                }
            }
            proof {
                let seg = s@.subrange(k as int, end as int);
                assert(last_named_segment(cur) == Some(seg));
            }
            return !is_dotdot;
        }
        proof {
            let seg = s@.subrange(k as int, end as int);
            if is_dot {
                assert(seg =~= seq!['.']);
            }
        }
        if k == p {
            proof {
                assert(last_named_segment(cur) == None::<Seq<char>>);
            }
            return false;
        }
        proof {
            assert(cur.subrange(0, ls) == s@.subrange(p as int, k - 1));
        }
        end = k - 1;
    }
}

/// Validates a user-entered output path before it is handed to the capture
/// backend, returning a human-readable reason on rejection. `/` and `\\`
/// are both accepted as separators; this guards against an empty path,
/// characters the filesystem cannot store, or a path with no file-name
/// component (a bare root such as `C:\\`, a trailing separator, or a `..`
/// ending), so bad input surfaces as a clear message instead of an opaque
/// write failure.
pub fn validate_output_path(path: &str) -> (res: Result<(), String>)
    ensures
        match validate_output_path_spec(path@) {
            Ok(()) => res is Ok,
            Err(msg) => res matches Err(m) && m@ == msg,
        },
{
    let cs = chars_of(path);
    let mut i: usize = 0;
    let mut blank = true;
    while i < cs.len()
        invariant
            cs@ == path@,
            i <= cs@.len(),
            blank == (forall|j: int| 0 <= j < i ==> #[trigger] is_unicode_whitespace(cs@[j])),
        decreases cs.len() - i,
    {
        if !is_whitespace_char(cs[i]) {
            blank = false;
        }
        i = i + 1;
    }
    if blank {
        return Err("Output path is empty.".to_owned());
    }
    assert(!is_blank(path@));
    let mut i: usize = 0;
    while i < cs.len()
        invariant
            cs@ == path@,
            i <= cs@.len(),
            bad_char_error(cs@, 0) == bad_char_error(cs@, i as nat),
            !is_blank(path@),
        decreases cs.len() - i,
    {
        let ch = cs[i];
        if (ch as u32) < 0x20 {
            return Err("Output path contains a control character.".to_owned());
        }
        if ch == '<' || ch == '>' || ch == '"' || ch == '|' || ch == '?' || ch == '*' {
            let mut msg = "Output path contains an invalid character: ".to_owned();
            msg.push(ch);
            return Err(msg);
        }
        i = i + 1;
    }
    let n = cs.len();
    if (n > 0 && (cs[n - 1] == '/' || cs[n - 1] == '\\')) || !file_name_present(&cs) {
        let mut msg = "Output path has no file name: ".to_owned();
        msg.append(path);
        return Err(msg);
    }
    Ok(())
}

} // verus!
