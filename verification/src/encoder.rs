//! Encoder orchestration logic: parameter sanitizing, backend candidate
//! selection with software fallback, and the exact argument fragments handed
//! to the media tool.

use vstd::prelude::*;
use vstd::string::StringExecFns;
use vstd::string::StringSliceAdditionalSpecFns;

use crate::error::AppError;
use crate::numfmt::{dec_spec, u64_to_string};
use crate::textscan::{bytes_eq, lower_bytes, spec_lower_bytes};

verus! {

/// An AV1 encoder backend.
#[derive(Clone, Copy, Debug, PartialEq, Eq, Structural)]
pub enum EncoderKind {
    VideoToolboxAv1,
    NvencAv1,
    QsvAv1,
    VaapiAv1,
    SoftwareAv1,
}

/// The operating system the service runs on, as far as encoder defaults
/// care.
#[derive(Clone, Copy, Debug, PartialEq, Eq, Structural)]
pub enum HostOs {
    MacOs,
    Windows,
    Linux,
    Other,
}

/// Client-tunable encoding parameters.
#[derive(Clone, Copy, Debug)]
pub struct EncodeParams {
    pub crf: u8,
    pub cpu_used: u8,
    pub encoder: Option<EncoderKind>,
}

impl EncodeParams {
    /// Clamp `crf` into `[0, 63]` and `cpu_used` into `[0, 8]`.
    pub fn sanitized(self) -> (r: EncodeParams)
        ensures
            r.crf == if self.crf > 63 {
                63u8
            } else {
                self.crf
            },
            r.cpu_used == if self.cpu_used > 8 {
                8u8
            } else {
                self.cpu_used
            },
            r.encoder == self.encoder,
            r.crf <= 63,
            r.cpu_used <= 8,
    {
        EncodeParams {
            crf: if self.crf > 63 {
                63
            } else {
                self.crf
            },
            cpu_used: if self.cpu_used > 8 {
                8
            } else {
                self.cpu_used
            },
            encoder: self.encoder,
        }
    }

    /// The backend the client asked for, if any.
    pub fn preferred_encoder(&self) -> (r: Option<EncoderKind>)
        ensures
            r == self.encoder,
    {
        self.encoder
    }
}

impl Default for EncodeParams {
    /// The defaults: crf 24, cpu_used 4, no explicit backend.
    fn default() -> (r: EncodeParams)
        ensures
            r.crf == 24,
            r.cpu_used == 4,
            r.encoder is None,
    {
        EncodeParams { crf: 24, cpu_used: 4, encoder: None }
    }
}

// ------------------------------------------------------------------
// Backend name parsing and candidate order.
// ------------------------------------------------------------------

/// The backend selected by a configuration value, compared in lower case.
pub open spec fn spec_encoder_from_name(lower: Seq<u8>) -> Option<EncoderKind> {
    if lower == "videotoolbox".spec_bytes() || lower == "vt".spec_bytes() {
        Some(EncoderKind::VideoToolboxAv1)
    } else if lower == "nvenc".spec_bytes() || lower == "cuda".spec_bytes() {
        Some(EncoderKind::NvencAv1)
    } else if lower == "qsv".spec_bytes() || lower == "quicksync".spec_bytes() {
        Some(EncoderKind::QsvAv1)
    } else if lower == "vaapi".spec_bytes() {
        Some(EncoderKind::VaapiAv1)
    } else if lower == "software".spec_bytes() || lower == "cpu".spec_bytes() {
        Some(EncoderKind::SoftwareAv1)
    } else {
        None
    }
}

/// Parse a backend name from a configuration value, case-insensitively.
pub fn encoder_from_name(value: &str) -> (r: Option<EncoderKind>)
    ensures
        r == spec_encoder_from_name(spec_lower_bytes(value.spec_bytes())),
{
    let lower = lower_bytes(value.as_bytes());
    let l = lower.as_slice();
    if bytes_eq(l, "videotoolbox".as_bytes()) || bytes_eq(l, "vt".as_bytes()) {
        Some(EncoderKind::VideoToolboxAv1)
    } else if bytes_eq(l, "nvenc".as_bytes()) || bytes_eq(l, "cuda".as_bytes()) {
        Some(EncoderKind::NvencAv1)
    } else if bytes_eq(l, "qsv".as_bytes()) || bytes_eq(l, "quicksync".as_bytes()) {
        Some(EncoderKind::QsvAv1)
    } else if bytes_eq(l, "vaapi".as_bytes()) {
        Some(EncoderKind::VaapiAv1)
    } else if bytes_eq(l, "software".as_bytes()) || bytes_eq(l, "cpu".as_bytes()) {
        Some(EncoderKind::SoftwareAv1)
    } else {
        None
    }
}

/// The candidate order: an explicit choice wins over the configured one;
/// with neither, the host's defaults stand; the software encoder always
/// closes the list, and no backend appears twice.
pub open spec fn spec_candidates(
    explicit: Option<EncoderKind>,
    env_choice: Option<EncoderKind>,
    host: HostOs,
) -> Seq<EncoderKind> {
    let chosen = if explicit is Some {
        explicit
    } else {
        env_choice
    };
    match chosen {
        Some(k) => if k == EncoderKind::SoftwareAv1 {
            seq![EncoderKind::SoftwareAv1]
        } else {
            seq![k, EncoderKind::SoftwareAv1]
        },
        None => match host {
            HostOs::MacOs => seq![EncoderKind::VideoToolboxAv1, EncoderKind::SoftwareAv1],
            HostOs::Windows => seq![
                EncoderKind::NvencAv1,
                EncoderKind::QsvAv1,
                EncoderKind::SoftwareAv1,
            ],
            HostOs::Linux => seq![
                EncoderKind::VaapiAv1,
                EncoderKind::NvencAv1,
                EncoderKind::SoftwareAv1,
            ],
            HostOs::Other => seq![EncoderKind::SoftwareAv1],
        },
    }
}

/// The ordered encoder candidates to try, deduplicated with the first
/// occurrence kept and the software encoder as the final fallback.
pub fn encoder_candidates(
    explicit: Option<EncoderKind>,
    env_choice: Option<EncoderKind>,
    host: HostOs,
) -> (r: Vec<EncoderKind>)
    ensures
        r@ == spec_candidates(explicit, env_choice, host),
        r@.len() >= 1,
        r@[r@.len() - 1] == EncoderKind::SoftwareAv1,
        forall|i: int, j: int| 0 <= i < j < r@.len() ==> r@[i] != r@[j],
{
    let chosen = match explicit {
        Some(k) => Some(k),
        None => env_choice,
    };
    let r: Vec<EncoderKind> = match chosen {
        Some(k) => {
            if k == EncoderKind::SoftwareAv1 {
                vec![EncoderKind::SoftwareAv1]
            } else {
                vec![k, EncoderKind::SoftwareAv1]
            }
        }
        None => {
            match host {
                HostOs::MacOs => vec![EncoderKind::VideoToolboxAv1, EncoderKind::SoftwareAv1],
                HostOs::Windows => vec![
                    EncoderKind::NvencAv1,
                    EncoderKind::QsvAv1,
                    EncoderKind::SoftwareAv1,
                ],
                HostOs::Linux => vec![
                    EncoderKind::VaapiAv1,
                    EncoderKind::NvencAv1,
                    EncoderKind::SoftwareAv1,
                ],
                HostOs::Other => vec![EncoderKind::SoftwareAv1],
            }
        }
    };
    proof {
        assert(r@ =~= spec_candidates(explicit, env_choice, host));
    }
    r
}

// ------------------------------------------------------------------
// Argument construction.
// ------------------------------------------------------------------

/// The views of a sequence of argument strings.
pub open spec fn strs(v: Seq<String>) -> Seq<Seq<char>> {
    v.map_values(|s: String| s@)
}

/// The fixed opening of every encode invocation: overwrite, then the input.
pub fn base_encode_args(input: &str) -> (r: Vec<String>)
    ensures
        strs(r@) == seq!["-y"@, "-i"@, input@],
{
    let mut args: Vec<String> = Vec::new();
    args.push(String::from_str("-y"));
    args.push(String::from_str("-i"));
    args.push(String::from_str(input));
    proof {
        assert(strs(args@) =~= seq!["-y"@, "-i"@, input@]);
    }
    args
}

/// The argument fragment of each backend. `device` is the VAAPI render
/// device path; the nvenc quality is capped at 51.
pub open spec fn spec_encoder_fragment(
    encoder: EncoderKind,
    params: EncodeParams,
    device: Seq<char>,
) -> Seq<Seq<char>> {
    match encoder {
        EncoderKind::VideoToolboxAv1 => seq![
            "-c:v"@,
            "av1_videotoolbox"@,
            "-q:v"@,
            dec_spec(params.crf as nat),
            "-pix_fmt"@,
            "yuv420p"@,
        ],
        EncoderKind::NvencAv1 => seq![
            "-hwaccel"@,
            "cuda"@,
            "-hwaccel_output_format"@,
            "cuda"@,
            "-c:v"@,
            "av1_nvenc"@,
            "-preset"@,
            "p5"@,
            "-cq"@,
            dec_spec(
                if params.crf > 51 {
                    51nat
                } else {
                    params.crf as nat
                },
            ),
            "-pix_fmt"@,
            "yuv420p"@,
        ],
        EncoderKind::QsvAv1 => seq![
            "-hwaccel"@,
            "qsv"@,
            "-c:v"@,
            "av1_qsv"@,
            "-global_quality"@,
            dec_spec(params.crf as nat),
            "-pix_fmt"@,
            "yuv420p"@,
        ],
        EncoderKind::VaapiAv1 => seq![
            "-hwaccel"@,
            "vaapi"@,
            "-hwaccel_device"@,
            device,
            "-hwaccel_output_format"@,
            "vaapi"@,
            "-vf"@,
            "format=nv12,hwupload"@,
            "-c:v"@,
            "av1_vaapi"@,
            "-qp"@,
            dec_spec(params.crf as nat),
        ],
        EncoderKind::SoftwareAv1 => seq![
            "-c:v"@,
            "libaom-av1"@,
            "-crf"@,
            dec_spec(params.crf as nat),
            "-b:v"@,
            "0"@,
            "-g"@,
            "120"@,
            "-cpu-used"@,
            dec_spec(params.cpu_used as nat),
            "-pix_fmt"@,
            "yuv420p"@,
        ],
    }
}

/// Append the backend-specific argument fragment.
pub fn apply_encoder_args(
    args: &mut Vec<String>,
    encoder: EncoderKind,
    params: EncodeParams,
    vaapi_device: &str,
)
    ensures
        strs(final(args)@) == strs(old(args)@) + spec_encoder_fragment(
            encoder,
            params,
            vaapi_device@,
        ),
{
    match encoder {
        EncoderKind::VideoToolboxAv1 => {
            args.push(String::from_str("-c:v"));
            args.push(String::from_str("av1_videotoolbox"));
            args.push(String::from_str("-q:v"));
            args.push(u64_to_string(params.crf as u64));
            args.push(String::from_str("-pix_fmt"));
            args.push(String::from_str("yuv420p"));
        }
        EncoderKind::NvencAv1 => {
            let cq: u8 = if params.crf > 51 {
                51
            } else {
                params.crf
            };
            args.push(String::from_str("-hwaccel"));
            args.push(String::from_str("cuda"));
            args.push(String::from_str("-hwaccel_output_format"));
            args.push(String::from_str("cuda"));
            args.push(String::from_str("-c:v"));
            args.push(String::from_str("av1_nvenc"));
            args.push(String::from_str("-preset"));
            args.push(String::from_str("p5"));
            args.push(String::from_str("-cq"));
            args.push(u64_to_string(cq as u64));
            args.push(String::from_str("-pix_fmt"));
            args.push(String::from_str("yuv420p"));
        }
        EncoderKind::QsvAv1 => {
            args.push(String::from_str("-hwaccel"));
            args.push(String::from_str("qsv"));
            args.push(String::from_str("-c:v"));
            args.push(String::from_str("av1_qsv"));
            args.push(String::from_str("-global_quality"));
            args.push(u64_to_string(params.crf as u64));
            args.push(String::from_str("-pix_fmt"));
            args.push(String::from_str("yuv420p"));
        }
        EncoderKind::VaapiAv1 => {
            args.push(String::from_str("-hwaccel"));
            args.push(String::from_str("vaapi"));
            args.push(String::from_str("-hwaccel_device"));
            args.push(String::from_str(vaapi_device));
            args.push(String::from_str("-hwaccel_output_format"));
            args.push(String::from_str("vaapi"));
            args.push(String::from_str("-vf"));
            args.push(String::from_str("format=nv12,hwupload"));
            args.push(String::from_str("-c:v"));
            args.push(String::from_str("av1_vaapi"));
            args.push(String::from_str("-qp"));
            args.push(u64_to_string(params.crf as u64));
        }
        EncoderKind::SoftwareAv1 => {
            args.push(String::from_str("-c:v"));
            args.push(String::from_str("libaom-av1"));
            args.push(String::from_str("-crf"));
            args.push(u64_to_string(params.crf as u64));
            args.push(String::from_str("-b:v"));
            args.push(String::from_str("0"));
            args.push(String::from_str("-g"));
            args.push(String::from_str("120"));
            args.push(String::from_str("-cpu-used"));
            args.push(u64_to_string(params.cpu_used as u64));
            args.push(String::from_str("-pix_fmt"));
            args.push(String::from_str("yuv420p"));
        }
    }
    proof {
        assert(strs(args@) =~= strs(old(args)@) + spec_encoder_fragment(
            encoder,
            params,
            vaapi_device@,
        ));
    }
}

/// The audio fragment: opus at 192k when the source has an audio stream.
pub open spec fn spec_audio_fragment(has_audio: bool) -> Seq<Seq<char>> {
    if has_audio {
        seq!["-c:a"@, "libopus"@, "-b:a"@, "192k"@]
    } else {
        seq!["-an"@]
    }
}

/// Append the audio arguments. A source without an audio stream gets `-an`
/// and nothing else.
pub fn apply_audio_args(args: &mut Vec<String>, has_audio: bool)
    ensures
        strs(final(args)@) == strs(old(args)@) + spec_audio_fragment(has_audio),
        !has_audio ==> strs(final(args)@) == strs(old(args)@) + seq!["-an"@],
{
    if has_audio {
        args.push(String::from_str("-c:a"));
        args.push(String::from_str("libopus"));
        args.push(String::from_str("-b:a"));
        args.push(String::from_str("192k"));
    } else {
        args.push(String::from_str("-an"));
    }
    proof {
        assert(strs(args@) =~= strs(old(args)@) + spec_audio_fragment(has_audio));
    }
}

// ------------------------------------------------------------------
// Failure accounting.
// ------------------------------------------------------------------

/// The decimal notation of a signed value.
pub open spec fn int_dec_spec(v: int) -> Seq<char> {
    if v < 0 {
        seq!['-'] + dec_spec((-v) as nat)
    } else {
        dec_spec(v as nat)
    }
}

/// The error recorded when the media tool exits with a status: a transcode
/// error whose message carries the exact exit code, or names the signal
/// case when no code is available.
pub fn ffmpeg_exit_error(code: Option<i64>) -> (e: AppError)
    ensures
        e is Transcode,
        crate::error::spec_message(e) == match code {
            Some(c) => "transcoding failed: "@ + "ffmpeg exited with status "@ + int_dec_spec(
                c as int,
            ),
            None => "transcoding failed: "@ + "ffmpeg terminated by a signal"@,
        },
{
    match code {
        Some(c) => {
            let mut msg = String::from_str("ffmpeg exited with status ");
            if c < 0 {
                msg.append("-");
                let mag: u64 = (-(c as i128)) as u64;
                let digits = u64_to_string(mag);
                msg.append(digits.as_str());
                proof {
                    reveal_strlit("-");
                    assert(msg@ =~= "ffmpeg exited with status "@ + int_dec_spec(c as int));
                }
            } else {
                let digits = u64_to_string(c as u64);
                msg.append(digits.as_str());
                proof {
                    assert(msg@ =~= "ffmpeg exited with status "@ + int_dec_spec(c as int));
                }
            }
            AppError::transcode(msg)
        },
        None => AppError::transcode(String::from_str("ffmpeg terminated by a signal")),
    }
}

/// After every candidate failed, the error surfaced to the job is the last
/// candidate's error; an empty attempt list yields a generic transcode
/// error.
pub fn encode_failure_verdict(errors: Vec<AppError>) -> (r: AppError)
    ensures
        errors@.len() > 0 ==> r == errors@[errors@.len() - 1],
        errors@.len() == 0 ==> r is Transcode,
{
    let mut v = errors;
    match v.pop() {
        Some(e) => e,
        None => AppError::transcode(String::from_str("encode pipeline failed")),
    }
}

} // verus!
