//! Path handling and outcome decisions around PNG encoding: separator
//! normalisation, the overwrite guard, the COM start-up outcome and the
//! resolution of the real on-disk output path.

use vstd::prelude::*;

use crate::text::{chars_of, is_prefix_of, string_from_chars};
use crate::types::ErrorInfo;
use crate::util::{
    bad_char_error, decode_utf16_lossy, has_file_name, is_blank, is_path_sep, is_unicode_whitespace,
    last_named_segment,
    last_sep, lemma_last_sep_bounds, next_sep_from, utf8_from_wide, validate_output_path_spec,
    windows_prefix_len,
};

verus! {

/// Where the encoder reports its errors.
pub open spec fn png_where() -> Seq<char> {
    "SavePngWic"@
}

/// `s` with every `/` replaced by `\`.
pub open spec fn normalize_spec(s: Seq<char>) -> Seq<char> {
    Seq::new(
        s.len(),
        |i: int|
            if s[i] == '/' {
                '\\'
            } else {
                s[i]
            },
    )
}

/// Normalizes forward slashes to backslashes. The Win32 file APIs accept
/// either separator, but WIC's shell-based stream creation is fussier and the
/// resolved path is reported back to the user, so we settle on one separator
/// up front. `/` is a valid separator on Windows, so this never rejects
/// input; it only rewrites it.
pub fn normalize_path_separators(path: &str) -> (r: String)
    ensures
        r@ == normalize_spec(path@),
{
    let cs = chars_of(path);
    let mut out: Vec<char> = Vec::new();
    let mut i: usize = 0;
    while i < cs.len()
        invariant
            cs@ == path@,
            i <= cs@.len(),
            out@ == normalize_spec(cs@).take(i as int),
        decreases cs.len() - i,
    {
        let c = cs[i];
        if c == '/' {
            out.push('\\');
        } else {
            out.push(c);
        }
        assert(normalize_spec(cs@).take(i + 1) == normalize_spec(cs@).take(i as int).push(
            normalize_spec(cs@)[i as int],
        ));
        i = i + 1;
    }
    assert(normalize_spec(cs@).take(cs@.len() as int) == normalize_spec(cs@));
    string_from_chars(&out)
}

/// Normalisation leaves the length unchanged, removes every `/`, changes
/// nothing else, and is idempotent.
pub proof fn law_normalize_separators(s: Seq<char>)
    ensures
        normalize_spec(s).len() == s.len(),
        forall|i: int| 0 <= i < s.len() ==> #[trigger] normalize_spec(s)[i] != '/',
        forall|i: int| 0 <= i < s.len() && s[i] != '/' ==> #[trigger] normalize_spec(s)[i] == s[i],
        normalize_spec(normalize_spec(s)) == normalize_spec(s),
{
    assert(normalize_spec(normalize_spec(s)) =~= normalize_spec(s));
}

/// `path` without the extended-length prefix: `\\?\UNC\rest` becomes
/// `\\rest`, `\\?\rest` becomes `rest`, anything else is unchanged.
pub open spec fn strip_extended_spec(path: Seq<char>) -> Seq<char> {
    if is_prefix_of("\\\\?\\UNC\\"@, path) {
        "\\\\"@ + path.skip(8)
    } else if is_prefix_of("\\\\?\\"@, path) {
        path.skip(4)
    } else {
        path
    }
}

/// Strips the `\\?\` (or `\\?\UNC\`) extended-length prefix that the
/// final-path query returns, so a reported path matches what a user would
/// recognise.
pub fn strip_extended_length_prefix(path: &str) -> (r: String)
    ensures
        r@ == strip_extended_spec(path@),
{
    proof {
        reveal_strlit("\\\\?\\UNC\\");
        reveal_strlit("\\\\?\\");
    }
    if let Some(rest) = crate::text::strip_prefix_str(path, "\\\\?\\UNC\\") {
        let mut r = "\\\\".to_owned();
        r.append(rest.as_str());
        r
    } else if let Some(rest) = crate::text::strip_prefix_str(path, "\\\\?\\") {
        rest
    } else {
        path.to_owned()
    }
}

/// Refuses to write over an existing file unless `overwrite` is set.
pub fn check_overwrite(overwrite: bool, exists: bool) -> (r: Result<(), ErrorInfo>)
    ensures
        r is Err <==> (!overwrite && exists),
        r matches Err(e) ==> e.message@ == "output exists (use --overwrite)"@ && e.where_@
            == png_where() && e.hresult is None && e.win32_error is None,
{
    if !overwrite && exists {
        return Err(ErrorInfo::new("output exists (use --overwrite)", "SavePngWic"));
    }
    Ok(())
}

/// A missing output directory is reported by name instead of surfacing as
/// an opaque encoder failure.
pub fn check_output_directory(parent: &str, is_dir: bool) -> (r: Result<(), ErrorInfo>)
    ensures
        r is Err <==> !is_dir,
        r matches Err(e) ==> e.message@ == "output directory does not exist: "@ + parent@
            && e.where_@ == png_where() && e.hresult is None && e.win32_error is None,
{
    if is_dir {
        return Ok(());
    }
    let mut m = "output directory does not exist: ".to_owned();
    m.append(parent);
    Err(ErrorInfo { message: m, where_: "SavePngWic".to_owned(), hresult: None, win32_error: None })
}

/// `RPC_E_CHANGED_MODE`: COM was already initialised with another model.
pub const RPC_E_CHANGED_MODE: u32 = 0x8001_0106;

/// The outcome of initialising COM with result code `hr`: `Ok(true)` when
/// this call initialised COM (and must undo it), `Ok(false)` when COM was
/// already initialised in another mode (tolerated), otherwise the error.
pub fn com_init_outcome(hr: i32) -> (r: Result<bool, ErrorInfo>)
    ensures
        hr >= 0 ==> r == Ok::<bool, ErrorInfo>(true),
        hr < 0 && hr as u32 == RPC_E_CHANGED_MODE ==> r == Ok::<bool, ErrorInfo>(false),
        hr < 0 && hr as u32 != RPC_E_CHANGED_MODE ==> (r matches Err(e) && e.message@
            == "CoInitializeEx failed"@ && e.where_@ == png_where() && e.hresult == Some(
            hr as u32,
        ) && e.win32_error is None),
{
    if hr >= 0 {
        Ok(true)
    } else if hr as u32 == RPC_E_CHANGED_MODE {
        Ok(false)
    } else {
        Err(ErrorInfo::with_hresult("CoInitializeEx failed", "SavePngWic", hr as u32))
    }
}

/// The initial buffer size for the final-path query, in UTF-16 units.
pub const FINAL_PATH_BUFFER: usize = 512;

/// The number of final-path queries before giving up.
pub const FINAL_PATH_TRIES: u32 = 3;

/// What to do with the length `len` the final-path query reported for a
/// buffer of `buf_len` units.
#[derive(Clone, Copy, Debug, PartialEq, Eq, Structural)]
pub enum FinalPathStep {
    /// The query failed: report the requested path.
    Fallback,
    /// The path fits: use the first `len` units.
    Use(usize),
    /// The buffer is too small: query again with this many units.
    Grow(usize),
}

/// The query returns the path length without the terminating NUL when the
/// buffer is large enough, or the size needed (with the NUL) when it is
/// not; 0 means failure.
pub fn final_path_step(len: u32, buf_len: usize) -> (r: FinalPathStep)
    ensures
        len == 0 ==> r == FinalPathStep::Fallback,
        len != 0 && len as int <= buf_len ==> r == FinalPathStep::Use(len as usize),
        len != 0 && len as int > buf_len ==> r == FinalPathStep::Grow(len as usize),
{
    if len == 0 {
        return FinalPathStep::Fallback;
    }
    let n = len as usize;
    if n <= buf_len {
        FinalPathStep::Use(n)
    } else {
        FinalPathStep::Grow(n)
    }
}

/// The reported path from the first `len` units of the query buffer:
/// decoded (lossily) and stripped of the extended-length prefix.
pub fn final_path_from_buffer(buf: &Vec<u16>, len: usize) -> (r: String)
    requires
        len <= buf@.len(),
    ensures
        r@ == strip_extended_spec(decode_utf16_lossy(buf@.take(len as int))),
{
    let mut head: Vec<u16> = Vec::new();
    let mut i: usize = 0;
    while i < len
        invariant
            len <= buf@.len(),
            i <= len,
            head@ == buf@.take(i as int),
        decreases len - i,
    {
        head.push(buf[i]);
        assert(buf@.take(i + 1) == buf@.take(i as int).push(buf@[i as int]));
        i = i + 1;
    }
    let decoded = utf8_from_wide(head.as_slice());
    strip_extended_length_prefix(decoded.as_str())
}

proof fn lemma_normalize_slices(s: Seq<char>, a: int, b: int)
    requires
        0 <= a <= b <= s.len(),
    ensures
        normalize_spec(s).subrange(a, b) =~= normalize_spec(s.subrange(a, b)),
{
}

proof fn lemma_next_sep_normalized(s: Seq<char>, i: nat)
    ensures
        next_sep_from(normalize_spec(s), i) == next_sep_from(s, i),
    decreases s.len() - i,
{
    if i < s.len() && !is_path_sep(s[i as int]) {
        lemma_next_sep_normalized(s, i + 1);
    }
}

proof fn lemma_last_sep_normalized(r: Seq<char>)
    ensures
        last_sep(normalize_spec(r)) == last_sep(r),
    decreases r.len(),
{
    if r.len() > 0 {
        assert(normalize_spec(r).drop_last() =~= normalize_spec(r.drop_last()));
        lemma_last_sep_normalized(r.drop_last());
    }
}

proof fn lemma_last_segment_normalized(r: Seq<char>)
    ensures
        last_named_segment(normalize_spec(r)) == last_named_segment(r),
    decreases r.len(),
{
    let n = normalize_spec(r);
    lemma_last_sep_normalized(r);
    lemma_last_sep_bounds(r);
    let k = last_sep(r);
    lemma_normalize_slices(r, k + 1, r.len() as int);
    let seg = r.subrange(k + 1, r.len() as int);
    assert(normalize_spec(seg) =~= seg);
    if !(seg.len() > 0 && seg != seq!['.']) && !(k < 0 || k >= r.len()) {
        lemma_normalize_slices(r, 0, k);
        lemma_last_segment_normalized(r.subrange(0, k));
    }
}

proof fn lemma_bad_char_normalized(s: Seq<char>, i: nat)
    ensures
        bad_char_error(normalize_spec(s), i) is Some <==> bad_char_error(s, i) is Some,
    decreases s.len() - i,
{
    if i < s.len() {
        lemma_bad_char_normalized(s, i + 1);
    }
}

/// Normalising the separators never changes whether an output path is
/// accepted: `/` and `\` are both separators to the validation.
pub proof fn law_normalize_keeps_validation(s: Seq<char>)
    ensures
        validate_output_path_spec(normalize_spec(s)) is Ok <==> validate_output_path_spec(s) is Ok,
{
    let n = normalize_spec(s);
    assert forall|i: int| 0 <= i < s.len() implies is_unicode_whitespace(#[trigger] n[i])
        == is_unicode_whitespace(s[i]) by {
        if s[i] == '/' {
            assert(('/' as u32) == 0x2F);
            assert(('\\' as u32) == 0x5C);
        }
    }
    if is_blank(s) {
        assert forall|i: int| 0 <= i < n.len() implies #[trigger] is_unicode_whitespace(n[i]) by {
            assert(is_unicode_whitespace(s[i]));
        }
    }
    if is_blank(n) {
        assert forall|i: int| 0 <= i < s.len() implies #[trigger] is_unicode_whitespace(s[i]) by {
            assert(is_unicode_whitespace(n[i]));
        }
    }
    lemma_bad_char_normalized(s, 0);
    lemma_next_sep_normalized(s, 2);
    lemma_next_sep_normalized(s, 4);
    let p = windows_prefix_len(s);
    if s.len() >= 2 && is_path_sep(s[0]) && is_path_sep(s[1]) && !(s.len() >= 4 && s[2] == '.'
        && is_path_sep(s[3])) {
        let server_end = next_sep_from(s, 2);
        lemma_next_sep_normalized(s, server_end + 1);
    }
    assert(windows_prefix_len(n) == p);
    assert(p <= s.len()) by {
        lemma_prefix_len_bound(s);
    }
    lemma_normalize_slices(s, p as int, s.len() as int);
    lemma_last_segment_normalized(s.subrange(p as int, s.len() as int));
    assert(has_file_name(n) == has_file_name(s));
}

proof fn lemma_next_sep_bound(s: Seq<char>, i: nat)
    ensures
        next_sep_from(s, i) <= s.len() || next_sep_from(s, i) == i,
        i <= s.len() ==> i <= next_sep_from(s, i) <= s.len(),
    decreases s.len() - i,
{
    if i < s.len() && !is_path_sep(s[i as int]) {
        lemma_next_sep_bound(s, i + 1);
    }
}

proof fn lemma_prefix_len_bound(s: Seq<char>)
    ensures
        windows_prefix_len(s) <= s.len(),
{
    lemma_next_sep_bound(s, 2);
    lemma_next_sep_bound(s, 4);
    if s.len() >= 2 && is_path_sep(s[0]) && is_path_sep(s[1]) && !(s.len() >= 4 && s[2] == '.'
        && is_path_sep(s[3])) {
        let server_end = next_sep_from(s, 2);
        if server_end < s.len() {
            lemma_next_sep_bound(s, server_end + 1);
        }
    }
}

} // verus!
