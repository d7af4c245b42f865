//! The delivery surface's logic: byte-range parsing, asset-path validation,
//! response planning for progressive and static serving, and the lazy-ensure
//! decision for derived manifests.

use vstd::prelude::*;
use vstd::slice::slice_subrange;
use vstd::string::StringExecFns;
use vstd::string::StringSliceAdditionalSpecFns;

use crate::error::AppError;
use crate::numfmt::{dec_spec, push_u64};
use crate::textscan::{contains_bytes, ends_with_bytes, lower_bytes, match_at, spec_trim, trim_ascii};

verus! {

// ------------------------------------------------------------------
// Decimal parsing over bytes.
// ------------------------------------------------------------------

pub open spec fn is_digit(b: u8) -> bool {
    48 <= b <= 57
}

pub open spec fn all_digits(s: Seq<u8>) -> bool {
    forall|i: int| 0 <= i < s.len() ==> is_digit(#[trigger] s[i])
}

/// The value of a decimal digit string, most significant digit first.
pub open spec fn dec_val(s: Seq<u8>) -> int
    decreases s.len(),
{
    if s.len() == 0 {
        0
    } else {
        dec_val(s.drop_last()) * 10 + (s.last() - 48)
    }
}

/// What parsing an unsigned 64-bit decimal yields: the value, if the string
/// is non-empty, all digits, and the value fits.
pub open spec fn spec_parse_u64(s: Seq<u8>) -> Option<u64> {
    if s.len() == 0 || !all_digits(s) || dec_val(s) > u64::MAX {
        None
    } else {
        Some(dec_val(s) as u64)
    }
}

pub proof fn lemma_dec_val_bounds(s: Seq<u8>, i: int)
    requires
        all_digits(s),
        0 <= i <= s.len(),
    ensures
        dec_val(s) >= dec_val(s.take(i)),
        dec_val(s.take(i)) >= 0,
    decreases s.len() - i,
{
    lemma_dec_val_nonneg(s, i);
    if i < s.len() {
        assert(s.take(i + 1).drop_last() =~= s.take(i));
        assert(s.take(i + 1).last() == s[i]);
        lemma_dec_val_bounds(s, i + 1);
        lemma_dec_val_nonneg(s, i);
        assert(dec_val(s.take(i + 1)) == dec_val(s.take(i)) * 10 + (s[i] - 48));
        assert(dec_val(s.take(i)) * 10 >= dec_val(s.take(i))) by (nonlinear_arith)
            requires
                dec_val(s.take(i)) >= 0,
        ;
    } else {
        assert(s.take(i) =~= s);
    }
}

proof fn lemma_dec_val_nonneg(s: Seq<u8>, i: int)
    requires
        all_digits(s),
        0 <= i <= s.len(),
    ensures
        dec_val(s.take(i)) >= 0,
    decreases i,
{
    if i > 0 {
        lemma_dec_val_nonneg(s, i - 1);
        assert(s.take(i).drop_last() =~= s.take(i - 1));
        assert(s.take(i).last() == s[i - 1]);
        assert(dec_val(s.take(i - 1)) * 10 >= 0) by (nonlinear_arith)
            requires
                dec_val(s.take(i - 1)) >= 0,
        ;
    }
}

/// Parse an unsigned decimal from bytes; `None` on an empty string, a
/// non-digit, or overflow.
pub fn parse_u64_digits(s: &[u8]) -> (r: Option<u64>)
    ensures
        r == spec_parse_u64(s@),
{
    let n = s.len();
    if n == 0 {
        return None;
    }
    let mut value: u64 = 0;
    let mut i: usize = 0;
    while i < n
        invariant
            n == s@.len(),
            0 < n,
            i <= n,
            all_digits(s@.take(i as int)),
            value == dec_val(s@.take(i as int)),
        decreases n - i,
    {
        let b = s[i];
        if b < 48 || b > 57 {
            proof {
                assert(!is_digit(s@[i as int]));
            }
            return None;
        }
        let d: u64 = (b - 48) as u64;
        proof {
            assert(s@.take(i as int + 1).drop_last() =~= s@.take(i as int));
            assert(s@.take(i as int + 1).last() == s@[i as int]);
        }
        if value > 1844674407370955161 || (value == 1844674407370955161 && d > 5) {
            proof {
                let t = s@.take(i as int + 1);
                assert(dec_val(t) == value * 10 + d);
                assert(dec_val(t) > u64::MAX);
                if all_digits(s@) {
                    lemma_dec_val_bounds(s@, i as int + 1);
                }
            }
            return None;
        }
        value = value * 10 + d;
        i = i + 1;
    }
    proof {
        assert(s@.take(n as int) =~= s@);
    }
    Some(value)
}

// ------------------------------------------------------------------
// ASCII trimming and byte search.
// ------------------------------------------------------------------

/// Index of the first occurrence of byte `b` in `s`, or -1.
pub open spec fn first_pos(s: Seq<u8>, b: u8) -> int
    decreases s.len(),
{
    if s.len() == 0 {
        -1
    } else if s[0] == b {
        0
    } else {
        let r = first_pos(s.drop_first(), b);
        if r < 0 {
            -1
        } else {
            r + 1
        }
    }
}

proof fn lemma_first_pos_props(s: Seq<u8>, b: u8)
    ensures
        -1 <= first_pos(s, b) < s.len(),
        first_pos(s, b) >= 0 ==> s[first_pos(s, b)] == b,
        first_pos(s, b) == -1 ==> forall|k: int| 0 <= k < s.len() ==> s[k] != b,
        forall|k: int| 0 <= k < first_pos(s, b) ==> s[k] != b,
    decreases s.len(),
{
    if s.len() > 0 && s[0] != b {
        lemma_first_pos_props(s.drop_first(), b);
        assert forall|k: int| 1 <= k < s.len() implies s.drop_first()[k - 1] == s[k] by {}
    }
}

proof fn lemma_first_pos_at(s: Seq<u8>, b: u8, i: int)
    requires
        0 <= i < s.len(),
        s[i] == b,
        forall|k: int| 0 <= k < i ==> s[k] != b,
    ensures
        first_pos(s, b) == i,
    decreases s.len(),
{
    if i > 0 {
        assert(s[0] != b);
        assert forall|k: int| 1 <= k < s.len() implies s.drop_first()[k - 1] == s[k] by {}
        lemma_first_pos_at(s.drop_first(), b, i - 1);
    }
}

/// Find the first occurrence of byte `b` in `s`.
pub fn find_byte(s: &[u8], b: u8) -> (r: Option<usize>)
    ensures
        match r {
            Some(i) => i < s@.len() && first_pos(s@, b) == i,
            None => first_pos(s@, b) == -1,
        },
{
    let n = s.len();
    let mut i: usize = 0;
    while i < n
        invariant
            n == s@.len(),
            i <= n,
            forall|k: int| 0 <= k < i ==> s@[k] != b,
        decreases n - i,
    {
        if s[i] == b {
            proof {
                lemma_first_pos_at(s@, b, i as int);
            }
            return Some(i);
        }
        i = i + 1;
    }
    proof {
        lemma_first_pos_props(s@, b);
    }
    None
}

// ------------------------------------------------------------------
// Byte-range parsing.
// ------------------------------------------------------------------

/// A validated byte range of a file.
#[derive(Clone, Copy, Debug, PartialEq, Eq, Structural)]
pub struct ByteRange {
    pub start: u64,
    pub end: u64,
    pub length: u64,
}

/// The bytes of the mandatory `bytes=` unit prefix.
pub open spec fn range_unit_prefix() -> Seq<u8> {
    seq![98u8, 121u8, 116u8, 101u8, 115u8, 61u8]
}

/// What parsing a `Range` header against a file of `size` bytes yields.
///
/// The trimmed header must read `bytes=<start>-<end>` with decimal bounds;
/// an empty end means the last byte of the file. The range is valid exactly
/// when `start <= end < size`.
pub open spec fn spec_parse_range(s0: Seq<u8>, size: u64) -> Option<(u64, u64)> {
    let s = spec_trim(s0);
    if s.len() < 6 || s.subrange(0, 6) != range_unit_prefix() {
        None
    } else {
        let rest = s.subrange(6, s.len() as int);
        let d = first_pos(rest, 45);
        if d < 0 {
            None
        } else {
            match spec_parse_u64(rest.subrange(0, d)) {
                None => None,
                Some(start) => {
                    let end_opt = if d + 1 == rest.len() {
                        Some(sub_or_zero(size, 1))
                    } else {
                        spec_parse_u64(rest.subrange(d + 1, rest.len() as int))
                    };
                    match end_opt {
                        None => None,
                        Some(end) => if start <= end && end < size {
                            Some((start, end))
                        } else {
                            None
                        },
                    }
                },
            }
        }
    }
}

/// `a - b`, floored at zero, on u64.
pub open spec fn sub_or_zero(a: u64, b: u64) -> u64 {
    if a >= b {
        (a - b) as u64
    } else {
        0
    }
}

/// Parse a `Range` header value against a file of `file_size` bytes.
///
/// On success the returned range satisfies `start <= end < file_size` and
/// `length == end - start + 1`; every malformed or out-of-bounds header is a
/// validation error.
pub fn parse_range(raw: &str, file_size: u64) -> (r: Result<ByteRange, AppError>)
    ensures
        match r {
            Ok(br) => spec_parse_range(raw.spec_bytes(), file_size) == Some((br.start, br.end))
                && br.start <= br.end < file_size && br.length == br.end - br.start + 1,
            Err(e) => spec_parse_range(raw.spec_bytes(), file_size) is None && e is Validation,
        },
{
    let trimmed = trim_ascii(raw.as_bytes());
    let n = trimmed.len();
    let prefix_ok = n >= 6 && trimmed[0] == 98 && trimmed[1] == 121 && trimmed[2] == 116
        && trimmed[3] == 101 && trimmed[4] == 115 && trimmed[5] == 61;
    if !prefix_ok {
        proof {
            if trimmed@.len() >= 6 {
                assert(trimmed@.subrange(0, 6) != range_unit_prefix());
            }
        }
        return Err(AppError::validation(String::from_str("unsupported range unit")));
    }
    proof {
        assert(trimmed@.subrange(0, 6) =~= range_unit_prefix());
    }
    let rest = slice_subrange(trimmed, 6, n);
    let d = match find_byte(rest, 45) {
        Some(d) => d,
        None => {
            return Err(AppError::validation(String::from_str("invalid range format")));
        },
    };
    let start_part = slice_subrange(rest, 0, d);
    let start = match parse_u64_digits(start_part) {
        Some(v) => v,
        None => {
            return Err(
                AppError::validation(String::from_str("range start must be numeric")),
            );
        },
    };
    let end: u64;
    if d + 1 == rest.len() {
        end = if file_size >= 1 {
            file_size - 1
        } else {
            0
        };
    } else {
        let end_part = slice_subrange(rest, d + 1, rest.len());
        end = match parse_u64_digits(end_part) {
            Some(v) => v,
            None => {
                return Err(
                    AppError::validation(String::from_str("range end must be numeric")),
                );
            },
        };
    }
    if start > end || end >= file_size {
        return Err(AppError::validation(String::from_str("invalid range bounds")));
    }
    Ok(ByteRange { start, end, length: end - start + 1 })
}

// ------------------------------------------------------------------
// Asset-path validation.
// ------------------------------------------------------------------

/// A safe relative asset path: it does not begin with a slash and holds no
/// `..` anywhere.
pub open spec fn spec_path_ok(s: Seq<u8>) -> bool {
    &&& !(s.len() > 0 && s[0] == 47)
    &&& !contains_bytes(s, seq![46u8, 46u8])
}

/// Reject asset paths that begin with `/` or contain `..`.
pub fn validate_relative_path(path: &str) -> (r: Result<(), AppError>)
    ensures
        match r {
            Ok(_) => spec_path_ok(path.spec_bytes()),
            Err(e) => !spec_path_ok(path.spec_bytes()) && e is Validation,
        },
{
    let bytes = path.as_bytes();
    if bytes.len() > 0 && bytes[0] == 47 {
        return Err(AppError::validation(String::from_str("invalid asset path")));
    }
    let needle: Vec<u8> = vec![46u8, 46u8];
    proof {
        assert(needle@ =~= seq![46u8, 46u8]);
    }
    if crate::textscan::contains_sub(bytes, needle.as_slice()) {
        return Err(AppError::validation(String::from_str("invalid asset path")));
    }
    Ok(())
}

// ------------------------------------------------------------------
// The Range header carrier.
// ------------------------------------------------------------------

/// The raw `Range` header of a request, if one was sent.
#[derive(Debug, Clone)]
pub struct RangeHeader(pub Option<String>);

impl RangeHeader {
    pub fn new(value: Option<String>) -> (r: RangeHeader)
        ensures
            r.0 == value,
    {
        RangeHeader(value)
    }

    pub fn as_deref(&self) -> (r: Option<&str>)
        ensures
            match (r, &self.0) {
                (Some(s), Some(v)) => s@ == v@,
                (None, None) => true,
                _ => false,
            },
    {
        match &self.0 {
            Some(s) => Some(s.as_str()),
            None => None,
        }
    }
}

// ------------------------------------------------------------------
// Response planning.
// ------------------------------------------------------------------

/// The `Content-Range` line for a served range: `bytes <s>-<e>/<size>`.
pub open spec fn spec_content_range(start: u64, end: u64, size: u64) -> Seq<char> {
    "bytes "@ + dec_spec(start as nat) + seq!['-'] + dec_spec(end as nat) + seq!['/'] + dec_spec(
        size as nat,
    )
}

/// How to answer a progressive-download request: the status, where to start
/// reading, how many bytes to send, and the `Content-Range` header if any.
#[derive(Debug)]
pub struct VideoServePlan {
    pub status: u16,
    pub start: u64,
    pub content_length: u64,
    pub content_range: Option<String>,
}

/// Plan the response for a progressive file of `file_size` bytes.
///
/// Without a `Range` header the whole file is served with status 200. With
/// one, the parsed range is served with status 206 and a `Content-Range`
/// header; a bad range is a validation error.
pub fn plan_video_response(file_size: u64, range_header: Option<&str>) -> (r: Result<
    VideoServePlan,
    AppError,
>)
    ensures
        match r {
            Ok(p) => match range_header {
                None => p.status == 200 && p.start == 0 && p.content_length == file_size
                    && p.content_range is None,
                Some(h) => {
                    &&& spec_parse_range(h.spec_bytes(), file_size) matches Some(se)
                    &&& p.status == 206
                    &&& p.start == se.0
                    &&& se.0 <= se.1 < file_size
                    &&& p.content_length == se.1 - se.0 + 1
                    &&& p.content_range matches Some(cr) && cr@ == spec_content_range(
                        se.0,
                        se.1,
                        file_size,
                    )
                },
            },
            Err(e) => range_header matches Some(h) && spec_parse_range(h.spec_bytes(), file_size)
                is None && e is Validation,
        },
{
    match range_header {
        None => Ok(
            VideoServePlan {
                status: 200,
                start: 0,
                content_length: file_size,
                content_range: None,
            },
        ),
        Some(h) => {
            let br = parse_range(h, file_size)?;
            let mut cr = String::from_str("bytes ");
            push_u64(&mut cr, br.start);
            cr.append("-");
            push_u64(&mut cr, br.end);
            cr.append("/");
            push_u64(&mut cr, file_size);
            proof {
                reveal_strlit("-");
                reveal_strlit("/");
                assert(cr@ =~= spec_content_range(br.start, br.end, file_size));
            }
            Ok(
                VideoServePlan {
                    status: 206,
                    start: br.start,
                    content_length: br.length,
                    content_range: Some(cr),
                },
            )
        },
    }
}

// ------------------------------------------------------------------
// Lazy ensure decision.
// ------------------------------------------------------------------

/// What the ensure step must do for a derived-artifact directory.
#[derive(Clone, Copy, Debug, PartialEq, Eq, Structural)]
pub enum EnsureAction {
    /// The progressive source is missing: not-found.
    MissingSource,
    /// The manifest already exists: nothing to do.
    AlreadyReady,
    /// Run the generator.
    Generate,
}

/// The ensure decision: no source is not-found; an existing manifest is a
/// no-op; otherwise the generator runs.
pub open spec fn spec_ensure_action(source_exists: bool, manifest_exists: bool) -> EnsureAction {
    if !source_exists {
        EnsureAction::MissingSource
    } else if manifest_exists {
        EnsureAction::AlreadyReady
    } else {
        EnsureAction::Generate
    }
}

/// Decide the ensure step for a derived-artifact directory, given whether
/// the progressive source and the manifest exist.
pub fn ensure_action(source_exists: bool, manifest_exists: bool) -> (a: EnsureAction)
    ensures
        a == spec_ensure_action(source_exists, manifest_exists),
{
    if !source_exists {
        EnsureAction::MissingSource
    } else if manifest_exists {
        EnsureAction::AlreadyReady
    } else {
        EnsureAction::Generate
    }
}

/// Lazy ensure is idempotent: once the manifest exists, the decision is a
/// no-op and the generator is never respawned.
pub proof fn lemma_ensure_noop_when_ready(source_exists: bool)
    ensures
        spec_ensure_action(source_exists, true) != EnsureAction::Generate,
        source_exists ==> spec_ensure_action(source_exists, true) == EnsureAction::AlreadyReady,
{
}

// ------------------------------------------------------------------
// Static-asset content type.
// ------------------------------------------------------------------

/// What `mime_guess` answers for a path: a pure function of the path's
/// extension (a static table lookup).
pub uninterp spec fn mime_guess_of(path: Seq<char>) -> Option<Seq<char>>;

/// Relies on `mime_guess::from_path` and `MimeGuess::first`: the guess is
/// read from a static extension table, so it depends on the path alone.
#[verifier::external_body]
fn guess_mime(path: &str) -> (r: Option<String>)
    ensures
        match r {
            Some(m) => mime_guess_of(path@) == Some(m@),
            None => mime_guess_of(path@) is None,
        },
{
    mime_guess::from_path(path).first().map(|m| m.as_ref().to_string())
}

/// The path's lowercased bytes end in `.m3u8`.
pub open spec fn has_m3u8_suffix(path_bytes: Seq<u8>) -> bool {
    let lower = crate::textscan::spec_lower_bytes(path_bytes);
    let suffix = seq![46u8, 109u8, 51u8, 117u8, 56u8];
    suffix.len() <= lower.len() && match_at(lower, suffix, lower.len() - suffix.len())
}

/// The path's lowercased bytes end in `.mpd`.
pub open spec fn has_mpd_suffix(path_bytes: Seq<u8>) -> bool {
    let lower = crate::textscan::spec_lower_bytes(path_bytes);
    let suffix = seq![46u8, 109u8, 112u8, 100u8];
    suffix.len() <= lower.len() && match_at(lower, suffix, lower.len() - suffix.len())
}

/// The `Content-Type` for a static asset: the guessed MIME type when the
/// extension is known, else the HLS playlist type for `.m3u8`, the DASH
/// manifest type for `.mpd`, and nothing otherwise.
pub fn static_content_type(path: &str) -> (r: Option<String>)
    ensures
        match r {
            Some(ct) => (mime_guess_of(path@) matches Some(m) && ct@ == m) || (mime_guess_of(path@)
                is None && has_m3u8_suffix(path.spec_bytes()) && ct@
                == "application/vnd.apple.mpegurl"@) || (mime_guess_of(path@) is None
                && !has_m3u8_suffix(path.spec_bytes()) && has_mpd_suffix(path.spec_bytes()) && ct@
                == "application/dash+xml"@),
            None => mime_guess_of(path@) is None && !has_m3u8_suffix(path.spec_bytes())
                && !has_mpd_suffix(path.spec_bytes()),
        },
{
    match guess_mime(path) {
        Some(m) => Some(m),
        None => {
            let lower = lower_bytes(path.as_bytes());
            let m3u8_suffix: Vec<u8> = vec![46u8, 109u8, 51u8, 117u8, 56u8];
            let mpd_suffix: Vec<u8> = vec![46u8, 109u8, 112u8, 100u8];
            proof {
                assert(m3u8_suffix@ =~= seq![46u8, 109u8, 51u8, 117u8, 56u8]);
                assert(mpd_suffix@ =~= seq![46u8, 109u8, 112u8, 100u8]);
            }
            if ends_with_bytes(lower.as_slice(), m3u8_suffix.as_slice()) {
                Some(String::from_str("application/vnd.apple.mpegurl"))
            } else if ends_with_bytes(lower.as_slice(), mpd_suffix.as_slice()) {
                Some(String::from_str("application/dash+xml"))
            } else {
                None
            }
        },
    }
}

} // verus!
