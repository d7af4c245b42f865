//! Progress parsing for the media tool's stderr: the `time=` and `speed=`
//! tokens, the progress tracker with its monotonic reporting rules, the
//! stream splitter for mixed CR/LF records, and log-level classification.
//!
//! Times are integer milliseconds; a speed of one is `1000` (thousandths).

use vstd::prelude::*;
use vstd::slice::{slice_subrange, slice_to_vec};
use vstd::string::StringExecFns;
use vstd::string::StringSliceAdditionalSpecFns;

use crate::delivery::{all_digits, dec_val, first_pos, is_digit, parse_u64_digits, spec_parse_u64};
use crate::numfmt::{dec_spec, pad2_spec, push_pad2, push_u64};
use crate::textscan::{
    bytes_eq, contains_bytes, contains_sub, find_first_match, first_match, lower_bytes, match_at,
    spec_lower_bytes, spec_trim, starts_with_bytes, trim_ascii,
};

verus! {

// ------------------------------------------------------------------
// Token extraction.
// ------------------------------------------------------------------

/// Which status token is being read, deciding the accepted characters.
#[derive(Clone, Copy, Debug, PartialEq, Eq, Structural)]
pub enum TokenKind {
    /// A `time=` value: digits, `:` and `.`.
    Time,
    /// A `speed=` value: digits, `.`, `x`, `X`, `N`, `A` and `/`.
    Speed,
}

/// The bytes accepted inside a token of the given kind.
pub open spec fn token_byte_ok(kind: TokenKind, b: u8) -> bool {
    match kind {
        TokenKind::Time => is_digit(b) || b == 58 || b == 46,
        TokenKind::Speed => is_digit(b) || b == 46 || b == 120 || b == 88 || b == 78 || b == 65
            || b == 47,
    }
}

/// End of the run of accepted bytes that begins at `from`.
pub open spec fn spec_token_end(s: Seq<u8>, kind: TokenKind, from: int) -> int
    decreases s.len() - from,
{
    if from < s.len() && 0 <= from && token_byte_ok(kind, s[from]) {
        spec_token_end(s, kind, from + 1)
    } else {
        from
    }
}

/// The token following the first occurrence of `needle`: the longest run of
/// accepted bytes, or nothing when the needle is absent or the run empty.
pub open spec fn spec_extract_token(text: Seq<u8>, needle: Seq<u8>, kind: TokenKind) -> Option<
    Seq<u8>,
> {
    let m = first_match(text, needle);
    if m < 0 {
        None
    } else {
        let start = m + needle.len();
        let end = spec_token_end(text, kind, start);
        if end <= start {
            None
        } else {
            Some(text.subrange(start, end))
        }
    }
}

proof fn lemma_token_end(s: Seq<u8>, kind: TokenKind, from: int, j: int)
    requires
        0 <= from <= j <= s.len(),
        forall|m: int| from <= m < j ==> token_byte_ok(kind, #[trigger] s[m]),
        j == s.len() || !token_byte_ok(kind, s[j]),
    ensures
        spec_token_end(s, kind, from) == j,
    decreases j - from,
{
    if from < j {
        lemma_token_end(s, kind, from + 1, j);
    }
}

fn token_byte_ok_exec(kind: TokenKind, b: u8) -> (r: bool)
    ensures
        r == token_byte_ok(kind, b),
{
    match kind {
        TokenKind::Time => (48 <= b && b <= 57) || b == 58 || b == 46,
        TokenKind::Speed => (48 <= b && b <= 57) || b == 46 || b == 120 || b == 88 || b == 78
            || b == 65 || b == 47,
    }
}

/// The bytes of the token following `needle` in `text`, if any.
pub fn extract_token_bytes(text: &[u8], needle: &[u8], kind: TokenKind) -> (r: Option<Vec<u8>>)
    ensures
        match r {
            Some(v) => spec_extract_token(text@, needle@, kind) == Some(v@),
            None => spec_extract_token(text@, needle@, kind) is None,
        },
{
    let m = match find_first_match(text, needle) {
        Some(i) => i,
        None => {
            return None;
        },
    };
    let n = text.len();
    let start = m + needle.len();
    let mut j: usize = start;
    while j < n && token_byte_ok_exec(kind, text[j])
        invariant
            n == text@.len(),
            start <= j <= n,
            forall|k: int| start <= k < j ==> token_byte_ok(kind, #[trigger] text@[k]),
        decreases n - j,
    {
        j = j + 1;
    }
    proof {
        lemma_token_end(text@, kind, start as int, j as int);
    }
    if j == start {
        None
    } else {
        Some(slice_to_vec(slice_subrange(text, start, j)))
    }
}

/// The token following `needle` in `text`, as bytes.
pub fn extract_progress_token(text: &str, needle: &str, kind: TokenKind) -> (r: Option<Vec<u8>>)
    ensures
        match r {
            Some(v) => spec_extract_token(text.spec_bytes(), needle.spec_bytes(), kind) == Some(
                v@,
            ),
            None => spec_extract_token(text.spec_bytes(), needle.spec_bytes(), kind) is None,
        },
{
    extract_token_bytes(text.as_bytes(), needle.as_bytes(), kind)
}

// ------------------------------------------------------------------
// Field parsing: decimal with an optional fraction, in thousandths.
// ------------------------------------------------------------------

/// Fields whose integer part exceeds this are rejected as nonsense.
pub const FIELD_MAX: u64 = 1_000_000_000_000;

/// The value of up to three fractional digits, in thousandths; further
/// digits are truncated.
pub open spec fn spec_frac_milli(fp: Seq<u8>) -> int {
    if fp.len() >= 3 {
        dec_val(fp.take(3))
    } else if fp.len() == 2 {
        dec_val(fp) * 10
    } else if fp.len() == 1 {
        dec_val(fp) * 100
    } else {
        0
    }
}

/// A decimal field with an optional single `.` fraction, in thousandths:
/// digits on both sides, at least one digit in all, integer part at most
/// `FIELD_MAX`.
pub open spec fn spec_field_milli(s: Seq<u8>) -> Option<int> {
    let d = first_pos(s, 46);
    if d < 0 {
        if s.len() == 0 || !all_digits(s) || dec_val(s) > FIELD_MAX {
            None
        } else {
            Some(dec_val(s) * 1000)
        }
    } else {
        let ip = s.subrange(0, d);
        let fp = s.subrange(d + 1, s.len() as int);
        if !all_digits(ip) || !all_digits(fp) || (ip.len() == 0 && fp.len() == 0) {
            None
        } else if dec_val(ip) > FIELD_MAX {
            None
        } else {
            Some(dec_val(ip) * 1000 + spec_frac_milli(fp))
        }
    }
}

fn all_digits_exec(s: &[u8]) -> (r: bool)
    ensures
        r == all_digits(s@),
{
    let n = s.len();
    let mut i: usize = 0;
    while i < n
        invariant
            n == s@.len(),
            i <= n,
            forall|k: int| 0 <= k < i ==> is_digit(#[trigger] s@[k]),
        decreases n - i,
    {
        let b = s[i];
        if b < 48 || b > 57 {
            proof {
                assert(!is_digit(s@[i as int]));
            }
            return false;
        }
        i = i + 1;
    }
    true
}

fn parse_digits_field(s: &[u8]) -> (r: Option<u64>)
    ensures
        match r {
            Some(v) => s@.len() > 0 && all_digits(s@) && dec_val(s@) == v && v <= FIELD_MAX,
            None => s@.len() == 0 || !all_digits(s@) || dec_val(s@) > FIELD_MAX,
        },
{
    proof {
        if all_digits(s@) {
            crate::delivery::lemma_dec_val_bounds(s@, s@.len() as int);
            assert(s@.take(s@.len() as int) =~= s@);
        }
    }
    match parse_u64_digits(s) {
        Some(v) => {
            if v > FIELD_MAX {
                None
            } else {
                Some(v)
            }
        },
        None => None,
    }
}

fn frac_milli_exec(fp: &[u8]) -> (r: u64)
    requires
        all_digits(fp@),
    ensures
        r == spec_frac_milli(fp@),
        r <= 999,
{
    let n = fp.len();
    if n >= 3 {
        let head = slice_subrange(fp, 0, 3);
        proof {
            assert(head@ =~= fp@.take(3));
            assert(all_digits(head@));
        }
        match parse_u64_digits(head) {
            Some(v) => {
                proof {
                    lemma_small_dec_val(head@);
                }
                v
            },
            None => {
                proof {
                    lemma_small_dec_val(fp@.take(3));
                }
                0
            },
        }
    } else if n == 2 {
        match parse_u64_digits(fp) {
            Some(v) => {
                proof {
                    lemma_small_dec_val(fp@);
                }
                v * 10
            },
            None => {
                proof {
                    lemma_small_dec_val(fp@);
                }
                0
            },
        }
    } else if n == 1 {
        match parse_u64_digits(fp) {
            Some(v) => {
                proof {
                    lemma_small_dec_val(fp@);
                }
                v * 100
            },
            None => {
                proof {
                    lemma_small_dec_val(fp@);
                }
                0
            },
        }
    } else {
        0
    }
}

proof fn lemma_small_dec_val(s: Seq<u8>)
    requires
        all_digits(s),
        s.len() <= 3,
    ensures
        0 <= dec_val(s) <= 999,
        s.len() <= 2 ==> dec_val(s) <= 99,
        s.len() <= 1 ==> dec_val(s) <= 9,
        s.len() > 0 ==> spec_parse_u64(s) == Some(dec_val(s) as u64),
    decreases s.len(),
{
    if s.len() > 0 {
        assert(s.drop_last() =~= s.subrange(0, s.len() - 1));
        assert(all_digits(s.drop_last())) by {
            assert forall|i: int| 0 <= i < s.len() - 1 implies is_digit(s.drop_last()[i]) by {
                assert(s.drop_last()[i] == s[i]);
            }
        }
        lemma_small_dec_val(s.drop_last());
    }
}

/// Parse one decimal field into thousandths.
pub fn parse_field_milli(s: &[u8]) -> (r: Option<u64>)
    ensures
        match r {
            Some(v) => spec_field_milli(s@) == Some(v as int) && v <= 1_000_000_000_000_999,
            None => spec_field_milli(s@) is None,
        },
{
    let n = s.len();
    let dot = crate::delivery::find_byte(s, 46);
    match dot {
        None => {
            match parse_digits_field(s) {
                Some(v) => Some(v * 1000),
                None => None,
            }
        },
        Some(d) => {
            let ip = slice_subrange(s, 0, d);
            let fp = slice_subrange(s, d + 1, n);
            if !all_digits_exec(ip) || !all_digits_exec(fp) {
                return None;
            }
            if ip.len() == 0 && fp.len() == 0 {
                return None;
            }
            let ip_val: u64 = if ip.len() == 0 {
                0
            } else {
                match parse_digits_field(ip) {
                    Some(v) => v,
                    None => {
                        return None;
                    },
                }
            };
            let frac = frac_milli_exec(fp);
            Some(ip_val * 1000 + frac)
        },
    }
}

// ------------------------------------------------------------------
// Timecode and speed.
// ------------------------------------------------------------------

/// Milliseconds read from a `HH:MM:SS.ss` timecode: three colon-separated
/// decimal fields (any further `:` part is ignored), each possibly
/// fractional.
pub open spec fn spec_parse_timecode_ms(v0: Seq<u8>) -> Option<u64> {
    let v = spec_trim(v0);
    let c1 = first_pos(v, 58);
    if c1 < 0 {
        None
    } else {
        let p1 = v.subrange(0, c1);
        let r1 = v.subrange(c1 + 1, v.len() as int);
        let c2 = first_pos(r1, 58);
        if c2 < 0 {
            None
        } else {
            let p2 = r1.subrange(0, c2);
            let r2 = r1.subrange(c2 + 1, r1.len() as int);
            let c3 = first_pos(r2, 58);
            let p3 = if c3 < 0 {
                r2
            } else {
                r2.subrange(0, c3)
            };
            match (spec_field_milli(p1), spec_field_milli(p2), spec_field_milli(p3)) {
                (Some(h), Some(m), Some(s)) => Some((h * 3600 + m * 60 + s) as u64),
                _ => None,
            }
        }
    }
}

fn parse_timecode_bytes(v0: &[u8]) -> (r: Option<u64>)
    ensures
        r == spec_parse_timecode_ms(v0@),
{
    let v = trim_ascii(v0);
    let vn = v.len();
    let c1 = match crate::delivery::find_byte(v, 58) {
        Some(i) => i,
        None => {
            return None;
        },
    };
    let p1 = slice_subrange(v, 0, c1);
    let r1 = slice_subrange(v, c1 + 1, vn);
    let r1n = r1.len();
    let c2 = match crate::delivery::find_byte(r1, 58) {
        Some(i) => i,
        None => {
            return None;
        },
    };
    let p2 = slice_subrange(r1, 0, c2);
    let r2 = slice_subrange(r1, c2 + 1, r1n);
    let p3 = match crate::delivery::find_byte(r2, 58) {
        Some(i) => slice_subrange(r2, 0, i),
        None => r2,
    };
    let h = match parse_field_milli(p1) {
        Some(x) => x,
        None => {
            return None;
        },
    };
    let m = match parse_field_milli(p2) {
        Some(x) => x,
        None => {
            return None;
        },
    };
    let s = match parse_field_milli(p3) {
        Some(x) => x,
        None => {
            return None;
        },
    };
    Some(h * 3600 + m * 60 + s)
}

/// Milliseconds read from a timecode string.
pub fn parse_timecode(value: &str) -> (r: Option<u64>)
    ensures
        r == spec_parse_timecode_ms(value.spec_bytes()),
{
    parse_timecode_bytes(value.as_bytes())
}

/// The suffix of trailing `x` or `X` bytes removed.
pub open spec fn spec_strip_x(s: Seq<u8>) -> Seq<u8>
    decreases s.len(),
{
    if s.len() > 0 && (s.last() == 120 || s.last() == 88) {
        spec_strip_x(s.drop_last())
    } else {
        s
    }
}

/// The speed multiplier in thousandths: the trimmed value with trailing
/// `x` marks removed, read as a decimal field; `N/A` (any case) and
/// non-positive values yield nothing.
pub open spec fn spec_parse_speed_milli(v0: Seq<u8>) -> Option<u64> {
    let v = spec_trim(v0);
    if v.len() == 0 || spec_lower_bytes(v) == "n/a".spec_bytes() {
        None
    } else {
        let num = spec_strip_x(v);
        match spec_field_milli(num) {
            Some(x) => if x > 0 {
                Some(x as u64)
            } else {
                None
            },
            None => None,
        }
    }
}

fn trailing_x_mark(v: &[u8], j: usize) -> (r: bool)
    requires
        1 <= j <= v@.len(),
    ensures
        r == (v@[j - 1] == 120 || v@[j - 1] == 88),
{
    let b = v[j - 1];
    b == 120 || b == 88
}

fn parse_speed_bytes(v0: &[u8]) -> (r: Option<u64>)
    ensures
        r == spec_parse_speed_milli(v0@),
{
    let v = trim_ascii(v0);
    if v.len() == 0 {
        return None;
    }
    let lowered = lower_bytes(v);
    if bytes_eq(lowered.as_slice(), "n/a".as_bytes()) {
        return None;
    }
    let mut j: usize = v.len();
    proof {
        assert(v@.take(j as int) =~= v@);
    }
    while j > 0 && trailing_x_mark(v, j)
        invariant
            j <= v@.len(),
            spec_strip_x(v@) == spec_strip_x(v@.take(j as int)),
        decreases j,
    {
        proof {
            assert(v@.take(j as int).last() == v@[j - 1]);
            assert(v@.take(j as int).drop_last() =~= v@.take(j as int - 1));
        }
        j = j - 1;
    }
    let num = slice_subrange(v, 0, j);
    proof {
        assert(num@ =~= v@.take(j as int));
        if j > 0 {
            assert(v@.take(j as int).last() == v@[j - 1]);
        }
        assert(spec_strip_x(v@.take(j as int)) == v@.take(j as int));
    }
    match parse_field_milli(num) {
        Some(x) => {
            if x > 0 {
                Some(x)
            } else {
                None
            }
        },
        None => None,
    }
}

/// The speed multiplier in thousandths, from a `speed=` token.
pub fn parse_speed(value: &str) -> (r: Option<u64>)
    ensures
        r == spec_parse_speed_milli(value.spec_bytes()),
{
    parse_speed_bytes(value.as_bytes())
}

// ------------------------------------------------------------------
// Metrics of one status line.
// ------------------------------------------------------------------

/// What one stderr status line reports.
#[derive(Clone, Copy, Debug, PartialEq, Eq, Structural)]
pub struct FfmpegMetrics {
    /// Position reached, milliseconds.
    pub time_ms: u64,
    /// Speed multiplier in thousandths, when present and positive.
    pub speed_milli: Option<u64>,
}

/// The metrics of a line: the `time=` token must parse; the `speed=` token
/// is optional.
pub open spec fn spec_metrics(line: Seq<u8>) -> Option<FfmpegMetrics> {
    match spec_extract_token(line, "time=".spec_bytes(), TokenKind::Time) {
        None => None,
        Some(tok) => match spec_parse_timecode_ms(tok) {
            None => None,
            Some(ms) => {
                let sp = match spec_extract_token(
                    line,
                    "speed=".spec_bytes(),
                    TokenKind::Speed,
                ) {
                    None => None,
                    Some(stok) => spec_parse_speed_milli(stok),
                };
                Some(FfmpegMetrics { time_ms: ms, speed_milli: sp })
            },
        },
    }
}

/// Parse the progress metrics of one stderr line, as bytes.
pub fn parse_ffmpeg_metrics_bytes(line: &[u8]) -> (r: Option<FfmpegMetrics>)
    ensures
        r == spec_metrics(line@),
{
    let tok = match extract_token_bytes(line, "time=".as_bytes(), TokenKind::Time) {
        Some(t) => t,
        None => {
            return None;
        },
    };
    let ms = match parse_timecode_bytes(tok.as_slice()) {
        Some(m) => m,
        None => {
            return None;
        },
    };
    let sp = match extract_token_bytes(line, "speed=".as_bytes(), TokenKind::Speed) {
        Some(stok) => parse_speed_bytes(stok.as_slice()),
        None => None,
    };
    Some(FfmpegMetrics { time_ms: ms, speed_milli: sp })
}

/// Parse the progress metrics of one stderr line.
pub fn parse_ffmpeg_metrics(line: &str) -> (r: Option<FfmpegMetrics>)
    ensures
        r == spec_metrics(line.spec_bytes()),
{
    parse_ffmpeg_metrics_bytes(line.as_bytes())
}

// ------------------------------------------------------------------
// Human-readable remaining time.
// ------------------------------------------------------------------

/// The display form of a remaining-time estimate: `unknown` when none,
/// else hours, minutes and seconds with two-digit padding where a larger
/// unit stands before.
pub open spec fn spec_format_eta(seconds: Option<u64>) -> Seq<char> {
    match seconds {
        None => "unknown"@,
        Some(t) => if t >= 3600 {
            dec_spec((t / 3600) as nat) + "h "@ + pad2_spec(((t % 3600) / 60) as nat) + "m "@
                + pad2_spec((t % 60) as nat) + "s"@
        } else if t >= 60 {
            dec_spec((t / 60) as nat) + "m "@ + pad2_spec((t % 60) as nat) + "s"@
        } else {
            dec_spec(t as nat) + "s"@
        },
    }
}

/// Render a remaining-time estimate for logs.
pub fn format_eta(seconds: Option<u64>) -> (r: String)
    ensures
        r@ == spec_format_eta(seconds),
{
    match seconds {
        None => String::from_str("unknown"),
        Some(t) => {
            let mut out = String::new();
            if t >= 3600 {
                push_u64(&mut out, t / 3600);
                out.append("h ");
                push_pad2(&mut out, (t % 3600) / 60);
                out.append("m ");
                push_pad2(&mut out, t % 60);
                out.append("s");
            } else if t >= 60 {
                push_u64(&mut out, t / 60);
                out.append("m ");
                push_pad2(&mut out, t % 60);
                out.append("s");
            } else {
                push_u64(&mut out, t);
                out.append("s");
            }
            proof {
                assert(out@ =~= spec_format_eta(Some(t)));
            }
            out
        },
    }
}

// ------------------------------------------------------------------
// Log classification.
// ------------------------------------------------------------------

/// How a stderr line should be logged.
#[derive(Clone, Copy, Debug, PartialEq, Eq, Structural)]
pub enum LogVerdict {
    ErrorLog,
    WarnLog,
    DebugLog,
    Quiet,
}

/// The log level of a stderr line, decided over its lower-cased bytes:
/// failure words are errors; warnings and deprecations warn; progress and
/// codec chatter is debug; muxer file-open noise and segmenter prefixes are
/// dropped; stream headers are debug; everything else is dropped.
pub open spec fn spec_log_verdict(lower: Seq<u8>) -> LogVerdict {
    if contains_bytes(lower, "error".spec_bytes()) || contains_bytes(lower, "failed".spec_bytes())
        || contains_bytes(lower, "fatal".spec_bytes()) {
        LogVerdict::ErrorLog
    } else if contains_bytes(lower, "warning".spec_bytes()) || contains_bytes(
        lower,
        "deprecated".spec_bytes(),
    ) {
        LogVerdict::WarnLog
    } else if contains_bytes(lower, "speed=".spec_bytes()) || contains_bytes(
        lower,
        "muxing overhead".spec_bytes(),
    ) || contains_bytes(lower, "kb/s".spec_bytes()) || contains_bytes(
        lower,
        "encoded".spec_bytes(),
    ) {
        LogVerdict::DebugLog
    } else if contains_bytes(lower, "opening '".spec_bytes()) || contains_bytes(
        lower,
        "closing '".spec_bytes(),
    ) {
        LogVerdict::Quiet
    } else if ("[dash".spec_bytes().len() <= lower.len() && match_at(
        lower,
        "[dash".spec_bytes(),
        0,
    )) || ("[hls".spec_bytes().len() <= lower.len() && match_at(lower, "[hls".spec_bytes(), 0)) {
        LogVerdict::Quiet
    } else if ("input #".spec_bytes().len() <= lower.len() && match_at(
        lower,
        "input #".spec_bytes(),
        0,
    )) || ("output #".spec_bytes().len() <= lower.len() && match_at(
        lower,
        "output #".spec_bytes(),
        0,
    )) || contains_bytes(lower, "stream #".spec_bytes()) || contains_bytes(
        lower,
        "encoder".spec_bytes(),
    ) {
        LogVerdict::DebugLog
    } else {
        LogVerdict::Quiet
    }
}

// ------------------------------------------------------------------
// The progress tracker.
// ------------------------------------------------------------------

/// Progress reports closer than this are suppressed (0.005 in
/// parts-per-million).
pub const PROGRESS_EPSILON_PPM: u32 = 5_000;

/// A report is forced when this much time passed since the last one.
pub const MAX_PROGRESS_UPDATE_INTERVAL_MS: u64 = 3_000;

/// A human log line is emitted at most this often.
pub const PROGRESS_LOG_INTERVAL_MS: u64 = 10_000;

/// `a - b` on u64, floored at zero.
pub open spec fn sat_sub64(a: u64, b: u64) -> u64 {
    if a >= b {
        (a - b) as u64
    } else {
        0
    }
}

/// The progress ratio reached at `time_ms` of `total_ms`, clamped to one.
pub open spec fn spec_ratio_ppm(total_ms: u64, time_ms: u64) -> u32 {
    if total_ms == 0 {
        crate::RATIO_ONE
    } else {
        let raw = (time_ms * 1_000_000) / (total_ms as int);
        if raw > crate::RATIO_ONE {
            crate::RATIO_ONE
        } else {
            raw as u32
        }
    }
}

/// The remaining encode time: the unencoded span divided by the speed,
/// saturating at the largest representable value.
pub open spec fn spec_eta_ms(total_ms: u64, time_ms: u64, speed_milli: u64) -> u64 {
    if speed_milli == 0 {
        u64::MAX
    } else {
        let v = (sat_sub64(total_ms, time_ms) * 1000) / (speed_milli as int);
        if v > u64::MAX {
            u64::MAX
        } else {
            v as u64
        }
    }
}

/// Consumes the media tool's status lines and decides when the job store
/// hears about progress and ETA.
#[derive(Clone, Copy, Debug, PartialEq, Eq, Structural)]
pub struct ProgressTracker {
    /// Total source duration, milliseconds; positive.
    pub total_ms: u64,
    /// The last ratio pushed to the store, parts-per-million.
    pub last_reported: u32,
    /// When the last push happened.
    pub last_update_ms: u64,
    /// When the last human log line was emitted.
    pub last_log_ms: u64,
}

/// What the caller must do after one status line.
#[derive(Clone, Copy, Debug, PartialEq, Eq, Structural)]
pub struct LineActions {
    /// `Some(Some(ms))`: push this ETA; `Some(None)`: clear the stored ETA;
    /// `None`: leave it alone.
    pub eta_update: Option<Option<u64>>,
    /// Push this stage progress, parts-per-million.
    pub progress_update: Option<u32>,
    /// Emit a human progress log line.
    pub log_progress: bool,
}

/// No obligations.
pub open spec fn no_actions() -> LineActions {
    LineActions { eta_update: None, progress_update: None, log_progress: false }
}

/// The tracker's reaction to one line: a line without metrics does nothing;
/// a ratio below the last report is dropped whole (progress never rewinds);
/// otherwise the ETA is pushed or cleared by the speed token, the ratio is
/// pushed when it moved at least `PROGRESS_EPSILON_PPM` or the last push is
/// `MAX_PROGRESS_UPDATE_INTERVAL_MS` old, and a log line is due every
/// `PROGRESS_LOG_INTERVAL_MS` or near completion.
pub open spec fn spec_observe(t: ProgressTracker, line: Seq<u8>, now_ms: u64) -> (
    ProgressTracker,
    LineActions,
) {
    match spec_metrics(line) {
        None => (t, no_actions()),
        Some(m) => {
            let ratio = spec_ratio_ppm(t.total_ms, m.time_ms);
            if ratio < t.last_reported {
                (t, no_actions())
            } else {
                let eta = match m.speed_milli {
                    Some(sp) => Some(Some(spec_eta_ms(t.total_ms, m.time_ms, sp))),
                    None => Some(None::<u64>),
                };
                let push = ratio - t.last_reported >= PROGRESS_EPSILON_PPM || sat_sub64(
                    now_ms,
                    t.last_update_ms,
                ) >= MAX_PROGRESS_UPDATE_INTERVAL_MS;
                let log = sat_sub64(now_ms, t.last_log_ms) >= PROGRESS_LOG_INTERVAL_MS || (
                crate::RATIO_ONE - ratio) <= PROGRESS_EPSILON_PPM;
                let t2 = ProgressTracker {
                    last_reported: if push {
                        ratio
                    } else {
                        t.last_reported
                    },
                    last_update_ms: if push {
                        now_ms
                    } else {
                        t.last_update_ms
                    },
                    last_log_ms: if log {
                        now_ms
                    } else {
                        t.last_log_ms
                    },
                    ..t
                };
                (
                    t2,
                    LineActions {
                        eta_update: eta,
                        progress_update: if push {
                            Some(ratio)
                        } else {
                            None
                        },
                        log_progress: log,
                    },
                )
            }
        },
    }
}

impl ProgressTracker {
    /// The total is positive and the last report is a valid ratio.
    pub open spec fn wf(&self) -> bool {
        &&& self.total_ms > 0
        &&& self.last_reported <= crate::RATIO_ONE
    }

    /// Start tracking an encode over a source of `total_ms` milliseconds.
    pub fn new(total_ms: u64, now_ms: u64) -> (t: ProgressTracker)
        requires
            total_ms > 0,
        ensures
            t == (ProgressTracker {
                total_ms,
                last_reported: 0u32,
                last_update_ms: now_ms,
                last_log_ms: now_ms,
            }),
            t.wf(),
    {
        ProgressTracker { total_ms, last_reported: 0, last_update_ms: now_ms, last_log_ms: now_ms }
    }

    fn ratio_of(&self, time_ms: u64) -> (r: u32)
        requires
            self.total_ms > 0,
        ensures
            r == spec_ratio_ppm(self.total_ms, time_ms),
            r <= crate::RATIO_ONE,
    {
        let raw: u128 = (time_ms as u128) * 1_000_000 / (self.total_ms as u128);
        if raw > crate::RATIO_ONE as u128 {
            crate::RATIO_ONE
        } else {
            raw as u32
        }
    }

    /// Digest one status line; the returned actions say what to push to the
    /// job store. The reported ratio never decreases.
    pub fn observe_line(&mut self, line: &[u8], now_ms: u64) -> (act: LineActions)
        requires
            old(self).wf(),
        ensures
            final(self).wf(),
            (*final(self), act) == spec_observe(*old(self), line@, now_ms),
            final(self).last_reported >= old(self).last_reported,
            final(self).total_ms == old(self).total_ms,
            act.progress_update matches Some(p) ==> p == final(self).last_reported && p
                <= crate::RATIO_ONE && p >= old(self).last_reported,
    {
        let m = match parse_ffmpeg_metrics_bytes(line) {
            Some(m) => m,
            None => {
                return LineActions { eta_update: None, progress_update: None, log_progress: false
                };
            },
        };
        let ratio = self.ratio_of(m.time_ms);
        if ratio < self.last_reported {
            return LineActions { eta_update: None, progress_update: None, log_progress: false };
        }
        let eta_update: Option<Option<u64>> = match m.speed_milli {
            Some(sp) => {
                let span: u64 = if self.total_ms >= m.time_ms {
                    self.total_ms - m.time_ms
                } else {
                    0
                };
                let eta: u64 = if sp == 0 {
                    u64::MAX
                } else {
                    let v: u128 = (span as u128) * 1000 / (sp as u128);
                    if v > u64::MAX as u128 {
                        u64::MAX
                    } else {
                        v as u64
                    }
                };
                Some(Some(eta))
            },
            None => Some(None),
        };
        let since_update: u64 = if now_ms >= self.last_update_ms {
            now_ms - self.last_update_ms
        } else {
            0
        };
        let since_log: u64 = if now_ms >= self.last_log_ms {
            now_ms - self.last_log_ms
        } else {
            0
        };
        let push = ratio - self.last_reported >= PROGRESS_EPSILON_PPM || since_update
            >= MAX_PROGRESS_UPDATE_INTERVAL_MS;
        let log = since_log >= PROGRESS_LOG_INTERVAL_MS || crate::RATIO_ONE - ratio
            <= PROGRESS_EPSILON_PPM;
        if push {
            self.last_reported = ratio;
            self.last_update_ms = now_ms;
        }
        if log {
            self.last_log_ms = now_ms;
        }
        LineActions {
            eta_update,
            progress_update: if push {
                Some(ratio)
            } else {
                None
            },
            log_progress: log,
        }
    }

    /// The closing pushes after the stream ends: progress is driven to one
    /// unless it already is within the reporting epsilon, and the ETA
    /// becomes zero.
    pub fn finish(&mut self) -> (act: LineActions)
        requires
            old(self).wf(),
        ensures
            final(self).wf(),
            act.eta_update == Some(Some(0u64)),
            act.log_progress == false,
            old(self).last_reported < crate::RATIO_ONE - PROGRESS_EPSILON_PPM ==> act
                .progress_update == Some(crate::RATIO_ONE) && final(self).last_reported
                == crate::RATIO_ONE,
            old(self).last_reported >= crate::RATIO_ONE - PROGRESS_EPSILON_PPM ==> act
                .progress_update is None && *final(self) == *old(self),
    {
        if self.last_reported < crate::RATIO_ONE - PROGRESS_EPSILON_PPM {
            self.last_reported = crate::RATIO_ONE;
            LineActions {
                eta_update: Some(Some(0)),
                progress_update: Some(crate::RATIO_ONE),
                log_progress: false,
            }
        } else {
            LineActions { eta_update: Some(Some(0)), progress_update: None, log_progress: false }
        }
    }
}

/// How the stderr stream is consumed: with progress tracking when the
/// source duration is known and positive, else it is only drained to logs.
#[derive(Clone, Copy, Debug, PartialEq, Eq, Structural)]
pub enum MonitorMode {
    Track,
    Drain,
}

/// An unknown or zero duration means the monitor drains stderr without any
/// progress updates.
pub fn monitor_mode(total_ms: Option<u64>) -> (mode: MonitorMode)
    ensures
        mode == (match total_ms {
            Some(t) => if t > 0 {
                MonitorMode::Track
            } else {
                MonitorMode::Drain
            },
            None => MonitorMode::Drain,
        }),
{
    match total_ms {
        Some(t) => {
            if t > 0 {
                MonitorMode::Track
            } else {
                MonitorMode::Drain
            }
        },
        None => MonitorMode::Drain,
    }
}

// ------------------------------------------------------------------
// Splitting the stderr stream into records.
// ------------------------------------------------------------------

/// A record separator: carriage return or line feed.
pub open spec fn is_nl(b: u8) -> bool {
    b == 10 || b == 13
}

/// The bytes after the last separator: the still-incomplete record.
pub open spec fn spec_remainder(s: Seq<u8>) -> Seq<u8>
    decreases s.len(),
{
    if s.len() == 0 {
        Seq::<u8>::empty()
    } else if is_nl(s.last()) {
        Seq::<u8>::empty()
    } else {
        spec_remainder(s.drop_last()).push(s.last())
    }
}

/// Every maximal separator-free nonempty run, in order, the unterminated
/// tail included.
pub open spec fn spec_segments(s: Seq<u8>) -> Seq<Seq<u8>>
    decreases s.len(),
{
    if s.len() == 0 {
        Seq::<Seq<u8>>::empty()
    } else if is_nl(s.last()) {
        spec_segments(s.drop_last())
    } else if spec_remainder(s.drop_last()).len() > 0 {
        let rest = spec_segments(s.drop_last());
        rest.update(rest.len() - 1, rest.last().push(s.last()))
    } else {
        spec_segments(s.drop_last()).push(seq![s.last()])
    }
}

/// The complete records of a byte stream: every nonempty run that a
/// separator has closed.
pub open spec fn spec_complete_lines(s: Seq<u8>) -> Seq<Seq<u8>> {
    if spec_remainder(s).len() > 0 {
        spec_segments(s).drop_last()
    } else {
        spec_segments(s)
    }
}

/// When an unterminated tail exists, it is the last segment.
pub proof fn lemma_segments_last(s: Seq<u8>)
    ensures
        spec_remainder(s).len() > 0 ==> spec_segments(s).len() >= 1 && spec_segments(s).last()
            == spec_remainder(s),
    decreases s.len(),
{
    if s.len() > 0 {
        lemma_segments_last(s.drop_last());
    }
}

/// Splits a byte stream into complete records at `\r` and `\n`, keeping the
/// unterminated tail for the next chunk.
pub struct LineSplitter {
    pending: Vec<u8>,
}

impl LineSplitter {
    /// The bytes of the still-incomplete record.
    pub closed spec fn buffered(&self) -> Seq<u8> {
        self.pending@
    }

    /// The pending record never holds a separator.
    pub closed spec fn wf(&self) -> bool {
        forall|k: int| 0 <= k < self.pending@.len() ==> !is_nl(#[trigger] self.pending@[k])
    }

    pub fn new() -> (r: LineSplitter)
        ensures
            r.wf(),
            r.buffered() == Seq::<u8>::empty(),
    {
        LineSplitter { pending: Vec::new() }
    }

    /// Feed one chunk; the returned lines are exactly the records that the
    /// bytes seen so far complete, and the unterminated tail stays buffered.
    pub fn push_chunk(&mut self, chunk: &[u8]) -> (lines: Vec<Vec<u8>>)
        requires
            old(self).wf(),
        ensures
            final(self).wf(),
            final(self).buffered() == spec_remainder(old(self).buffered() + chunk@),
            lines@.len() == spec_complete_lines(old(self).buffered() + chunk@).len(),
            forall|k: int|
                0 <= k < lines@.len() ==> (#[trigger] lines@[k]@) == spec_complete_lines(
                    old(self).buffered() + chunk@,
                )[k],
    {
        let ghost base = self.pending@;
        proof {
            lemma_remainder_of_clean(base);
            assert(base + chunk@.take(0) =~= base);
            lemma_segments_of_clean(base);
        }
        let mut out: Vec<Vec<u8>> = Vec::new();
        let n = chunk.len();
        let mut i: usize = 0;
        while i < n
            invariant
                n == chunk@.len(),
                i <= n,
                self.wf(),
                self.buffered() == spec_remainder(base + chunk@.take(i as int)),
                out@.len() == spec_complete_lines(base + chunk@.take(i as int)).len(),
                forall|k: int|
                    0 <= k < out@.len() ==> (#[trigger] out@[k]@) == spec_complete_lines(
                        base + chunk@.take(i as int),
                    )[k],
            decreases n - i,
        {
            let ghost p = base + chunk@.take(i as int);
            let b = chunk[i];
            proof {
                assert(base + chunk@.take(i as int + 1) =~= p.push(b));
                assert(p.push(b).drop_last() =~= p);
                assert(p.push(b).last() == b);
                lemma_segments_last(p);
            }
            if b == 10 || b == 13 {
                if self.pending.len() > 0 {
                    let mut line: Vec<u8> = Vec::new();
                    core::mem::swap(&mut line, &mut self.pending);
                    proof {
                        assert(spec_complete_lines(p.push(b)) =~= spec_complete_lines(p).push(
                            line@,
                        ));
                    }
                    out.push(line);
                } else {
                    proof {
                        assert(spec_complete_lines(p.push(b)) =~= spec_complete_lines(p));
                    }
                }
            } else {
                proof {
                    if self.pending@.len() > 0 {
                        let rest = spec_segments(p);
                        assert(spec_complete_lines(p.push(b)) =~= spec_complete_lines(p));
                    } else {
                        assert(spec_complete_lines(p.push(b)) =~= spec_complete_lines(p));
                    }
                }
                self.pending.push(b);
            }
            i = i + 1;
        }
        proof {
            assert(base + chunk@.take(n as int) =~= base + chunk@);
        }
        out
    }

    /// Hand out the unterminated tail at end of stream.
    pub fn take_pending(&mut self) -> (r: Vec<u8>)
        ensures
            final(self).wf(),
            final(self).buffered() == Seq::<u8>::empty(),
            r@ == old(self).buffered(),
    {
        let mut line: Vec<u8> = Vec::new();
        core::mem::swap(&mut line, &mut self.pending);
        line
    }
}

proof fn lemma_remainder_of_clean(s: Seq<u8>)
    requires
        forall|k: int| 0 <= k < s.len() ==> !is_nl(#[trigger] s[k]),
    ensures
        spec_remainder(s) == s,
    decreases s.len(),
{
    if s.len() > 0 {
        assert(!is_nl(s.last()));
        lemma_remainder_of_clean(s.drop_last());
        assert(spec_remainder(s) =~= s);
    }
}

proof fn lemma_segments_of_clean(s: Seq<u8>)
    requires
        forall|k: int| 0 <= k < s.len() ==> !is_nl(#[trigger] s[k]),
    ensures
        s.len() > 0 ==> spec_segments(s) =~= seq![s],
        s.len() == 0 ==> spec_segments(s) =~= Seq::<Seq<u8>>::empty(),
        spec_complete_lines(s) =~= Seq::<Seq<u8>>::empty(),
    decreases s.len(),
{
    lemma_remainder_of_clean(s);
    if s.len() > 0 {
        lemma_segments_of_clean(s.drop_last());
        lemma_remainder_of_clean(s.drop_last());
        if s.drop_last().len() > 0 {
            assert(spec_segments(s) =~= seq![s]) by {
                assert(spec_segments(s.drop_last()) =~= seq![s.drop_last()]);
                assert(s.drop_last().push(s.last()) =~= s);
            }
        } else {
            assert(seq![s.last()] =~= s);
        }
    }
}

/// Classify one stderr line for logging.
pub fn log_ffmpeg_line(line: &str) -> (v: LogVerdict)
    ensures
        v == spec_log_verdict(spec_lower_bytes(line.spec_bytes())),
{
    let lowered = lower_bytes(line.as_bytes());
    let l = lowered.as_slice();
    if contains_sub(l, "error".as_bytes()) || contains_sub(l, "failed".as_bytes()) || contains_sub(
        l,
        "fatal".as_bytes(),
    ) {
        LogVerdict::ErrorLog
    } else if contains_sub(l, "warning".as_bytes()) || contains_sub(l, "deprecated".as_bytes()) {
        LogVerdict::WarnLog
    } else if contains_sub(l, "speed=".as_bytes()) || contains_sub(
        l,
        "muxing overhead".as_bytes(),
    ) || contains_sub(l, "kb/s".as_bytes()) || contains_sub(l, "encoded".as_bytes()) {
        LogVerdict::DebugLog
    } else if contains_sub(l, "opening '".as_bytes()) || contains_sub(l, "closing '".as_bytes()) {
        LogVerdict::Quiet
    } else if starts_with_bytes(l, "[dash".as_bytes()) || starts_with_bytes(
        l,
        "[hls".as_bytes(),
    ) {
        LogVerdict::Quiet
    } else if starts_with_bytes(l, "input #".as_bytes()) || starts_with_bytes(
        l,
        "output #".as_bytes(),
    ) || contains_sub(l, "stream #".as_bytes()) || contains_sub(l, "encoder".as_bytes()) {
        LogVerdict::DebugLog
    } else {
        LogVerdict::Quiet
    }
}

} // verus!
