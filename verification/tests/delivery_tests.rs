use vrs::delivery::{
    ensure_action, parse_range, plan_video_response, static_content_type, validate_relative_path,
    EnsureAction, RangeHeader,
};
use vrs::error::AppError;

#[test]
fn parse_range_handles_explicit_bounds() {
    let range = parse_range("bytes=10-19", 100).expect("range should parse");
    assert_eq!(range.start, 10);
    assert_eq!(range.end, 19);
    assert_eq!(range.length, 10);
}

#[test]
fn parse_range_handles_open_end() {
    let range = parse_range("bytes=100-", 200).expect("range should parse");
    assert_eq!(range.start, 100);
    assert_eq!(range.end, 199);
    assert_eq!(range.length, 100);
}

#[test]
fn parse_range_rejects_invalid_prefix() {
    let err = parse_range("items=0-10", 100).unwrap_err();
    assert!(matches!(err, AppError::Validation(_)));
}

#[test]
fn parse_range_rejects_bad_bounds() {
    assert!(matches!(parse_range("bytes=5-4", 100), Err(AppError::Validation(_))));
    assert!(matches!(parse_range("bytes=0-100", 100), Err(AppError::Validation(_))));
    assert!(matches!(parse_range("bytes=a-4", 100), Err(AppError::Validation(_))));
    assert!(matches!(parse_range("bytes=4", 100), Err(AppError::Validation(_))));
}

#[test]
fn validate_relative_path_rules() {
    assert!(validate_relative_path("segment.m4s").is_ok());
    assert!(validate_relative_path("subdir/segment.m4s").is_ok());
    assert!(validate_relative_path("../evil").is_err());
    assert!(validate_relative_path("/absolute").is_err());
}

#[test]
fn range_header_carries_value() {
    let header = RangeHeader::new(Some("bytes=0-4".to_string()));
    assert_eq!(header.as_deref(), Some("bytes=0-4"));
    let empty = RangeHeader::new(None);
    assert_eq!(empty.as_deref(), None);
}

#[test]
fn video_plan_without_range_serves_whole_file() {
    let plan = plan_video_response(6, None).expect("plan");
    assert_eq!(plan.status, 200);
    assert_eq!(plan.start, 0);
    assert_eq!(plan.content_length, 6);
    assert!(plan.content_range.is_none());
}

#[test]
fn video_plan_with_range_serves_partial_content() {
    let plan = plan_video_response(6, Some("bytes=1-3")).expect("plan");
    assert_eq!(plan.status, 206);
    assert_eq!(plan.start, 1);
    assert_eq!(plan.content_length, 3);
    assert_eq!(plan.content_range.as_deref(), Some("bytes 1-3/6"));
}

#[test]
fn video_plan_rejects_bad_range() {
    let err = plan_video_response(6, Some("bytes=9-10")).unwrap_err();
    assert!(matches!(err, AppError::Validation(_)));
}

#[test]
fn ensure_is_noop_once_manifest_exists() {
    assert_eq!(ensure_action(true, true), EnsureAction::AlreadyReady);
    assert_eq!(ensure_action(true, false), EnsureAction::Generate);
    assert_eq!(ensure_action(false, false), EnsureAction::MissingSource);
    assert_eq!(ensure_action(false, true), EnsureAction::MissingSource);
}

#[test]
fn content_type_prefers_known_extensions() {
    assert_eq!(static_content_type("notes.txt").as_deref(), Some("text/plain"));
    assert!(static_content_type("stream.m3u8").is_some());
    assert!(static_content_type("manifest.mpd").is_some());
    assert!(static_content_type("file.zzqq_no_such_ext").is_none());
}

#[test]
fn error_validation_helper_formats_message() {
    let err = AppError::validation("bad value".to_string());
    assert_eq!(err.message(), "validation failed: bad value");
}

#[test]
fn error_status_codes_follow_kind() {
    assert_eq!(AppError::validation("x".to_string()).http_status(), 400);
    assert_eq!(AppError::not_found("x".to_string()).http_status(), 404);
    assert_eq!(AppError::transcode("x".to_string()).http_status(), 500);
    assert_eq!(AppError::dependency("x".to_string()).http_status(), 503);
}

#[test]
fn error_unit_validation_helper_formats_message() {
    let err = AppError::validation("bad value".to_string());
    assert_eq!(err.message(), "validation failed: bad value");
}
