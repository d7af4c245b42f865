use vrs::encoder::{
    apply_audio_args, apply_encoder_args, base_encode_args, encode_failure_verdict,
    encoder_candidates, encoder_from_name, ffmpeg_exit_error, EncodeParams, EncoderKind, HostOs,
};
use vrs::error::AppError;

#[test]
fn encode_params_sanitized_clamps_values() {
    let params = EncodeParams { crf: 200, cpu_used: 99, encoder: None }.sanitized();
    assert_eq!(params.crf, 63);
    assert_eq!(params.cpu_used, 8);

    let params = EncodeParams { crf: 0, cpu_used: 0, encoder: None }.sanitized();
    assert_eq!(params.crf, 0);
    assert_eq!(params.cpu_used, 0);
}

#[test]
fn encoder_names_resolve_case_insensitively() {
    assert_eq!(encoder_from_name("videotoolbox"), Some(EncoderKind::VideoToolboxAv1));
    assert_eq!(encoder_from_name("VT"), Some(EncoderKind::VideoToolboxAv1));
    assert_eq!(encoder_from_name("cuda"), Some(EncoderKind::NvencAv1));
    assert_eq!(encoder_from_name("QuickSync"), Some(EncoderKind::QsvAv1));
    assert_eq!(encoder_from_name("vaapi"), Some(EncoderKind::VaapiAv1));
    assert_eq!(encoder_from_name("cpu"), Some(EncoderKind::SoftwareAv1));
    assert_eq!(encoder_from_name("zebra"), None);
}

#[test]
fn candidate_order_ends_with_software_fallback() {
    let explicit = encoder_candidates(Some(EncoderKind::QsvAv1), None, HostOs::Linux);
    assert_eq!(explicit, vec![EncoderKind::QsvAv1, EncoderKind::SoftwareAv1]);

    let from_env = encoder_candidates(None, Some(EncoderKind::VaapiAv1), HostOs::Other);
    assert_eq!(from_env, vec![EncoderKind::VaapiAv1, EncoderKind::SoftwareAv1]);

    let linux = encoder_candidates(None, None, HostOs::Linux);
    assert_eq!(
        linux,
        vec![EncoderKind::VaapiAv1, EncoderKind::NvencAv1, EncoderKind::SoftwareAv1]
    );

    let software_only = encoder_candidates(Some(EncoderKind::SoftwareAv1), None, HostOs::MacOs);
    assert_eq!(software_only, vec![EncoderKind::SoftwareAv1]);

    let bare = encoder_candidates(None, None, HostOs::Other);
    assert_eq!(bare, vec![EncoderKind::SoftwareAv1]);
}

#[test]
fn software_fragment_lists_exact_arguments() {
    let mut args = base_encode_args("in.mp4");
    assert_eq!(args, vec!["-y", "-i", "in.mp4"]);
    let params = EncodeParams { crf: 24, cpu_used: 4, encoder: None };
    apply_encoder_args(&mut args, EncoderKind::SoftwareAv1, params, "/dev/dri/renderD128");
    assert_eq!(
        args,
        vec![
            "-y", "-i", "in.mp4", "-c:v", "libaom-av1", "-crf", "24", "-b:v", "0", "-g", "120",
            "-cpu-used", "4", "-pix_fmt", "yuv420p",
        ]
    );
}

#[test]
fn nvenc_quality_is_capped_at_51() {
    let mut args: Vec<String> = Vec::new();
    let params = EncodeParams { crf: 63, cpu_used: 4, encoder: None };
    apply_encoder_args(&mut args, EncoderKind::NvencAv1, params, "/dev/dri/renderD128");
    assert!(args.iter().any(|a| a == "51"));
    assert!(!args.iter().any(|a| a == "63"));
}

#[test]
fn vaapi_fragment_uses_the_given_device() {
    let mut args: Vec<String> = Vec::new();
    let params = EncodeParams { crf: 30, cpu_used: 4, encoder: None };
    apply_encoder_args(&mut args, EncoderKind::VaapiAv1, params, "/dev/dri/renderD999");
    assert!(args.iter().any(|a| a == "/dev/dri/renderD999"));
    assert!(args.iter().any(|a| a == "av1_vaapi"));
}

#[test]
fn silent_sources_get_audio_disabled_everywhere() {
    let mut args: Vec<String> = Vec::new();
    apply_audio_args(&mut args, false);
    assert_eq!(args, vec!["-an"]);

    let mut with_audio: Vec<String> = Vec::new();
    apply_audio_args(&mut with_audio, true);
    assert_eq!(with_audio, vec!["-c:a", "libopus", "-b:a", "192k"]);
}

#[test]
fn exhausted_candidates_surface_the_last_error() {
    let errors = vec![
        AppError::transcode("first".to_string()),
        AppError::dependency("second".to_string()),
    ];
    let verdict = encode_failure_verdict(errors);
    assert_eq!(verdict.message(), "external dependency missing: second");

    let empty = encode_failure_verdict(Vec::new());
    assert!(matches!(empty, AppError::Transcode(_)));
}

#[test]
fn exit_errors_carry_the_status() {
    let e = ffmpeg_exit_error(Some(1));
    assert_eq!(e.message(), "transcoding failed: ffmpeg exited with status 1");
    let neg = ffmpeg_exit_error(Some(-9));
    assert_eq!(neg.message(), "transcoding failed: ffmpeg exited with status -9");
    let sig = ffmpeg_exit_error(None);
    assert_eq!(sig.message(), "transcoding failed: ffmpeg terminated by a signal");
}
