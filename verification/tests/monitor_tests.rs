use vrs::monitor::{
    extract_progress_token, format_eta, log_ffmpeg_line, monitor_mode, parse_ffmpeg_metrics,
    parse_speed, parse_timecode, LineSplitter, LogVerdict, MonitorMode, ProgressTracker,
    TokenKind,
};

#[test]
fn parse_timecode_handles_invalid_values() {
    assert!(parse_timecode("").is_none());
    assert!(parse_timecode("foo").is_none());
    assert_eq!(parse_timecode("00:00:10"), Some(10_000));
}

#[test]
fn parse_timecode_handles_fractions_and_hours() {
    assert_eq!(parse_timecode("01:02:03.50"), Some(3_723_500));
    assert_eq!(parse_timecode("00:00:00.25"), Some(250));
    assert!(parse_timecode("1:2").is_none());
}

#[test]
fn parse_speed_handles_na_and_suffix() {
    assert!(parse_speed("N/A").is_none());
    assert_eq!(parse_speed("2.5x"), Some(2_500));
    assert!(parse_speed("0.0x").is_none());
}

#[test]
fn extract_token_pulls_time_and_speed() {
    let line = "frame=  100 fps= 25 time=00:01:40.00 bitrate= 500kbits/s speed=2.5x";
    let time = extract_progress_token(line, "time=", TokenKind::Time).expect("time token");
    assert_eq!(time, b"00:01:40.00".to_vec());
    let speed = extract_progress_token(line, "speed=", TokenKind::Speed).expect("speed token");
    assert_eq!(speed, b"2.5x".to_vec());
    assert!(extract_progress_token(line, "qscale=", TokenKind::Time).is_none());
}

#[test]
fn metrics_combine_time_and_speed() {
    let line = "frame=  100 fps= 25 time=00:01:40.00 bitrate= 500kbits/s speed=2.5x";
    let m = parse_ffmpeg_metrics(line).expect("metrics");
    assert_eq!(m.time_ms, 100_000);
    assert_eq!(m.speed_milli, Some(2_500));

    assert!(parse_ffmpeg_metrics("no status here").is_none());

    let no_speed = parse_ffmpeg_metrics("time=00:00:01.00 speed=N/A").expect("metrics");
    assert_eq!(no_speed.time_ms, 1_000);
    assert_eq!(no_speed.speed_milli, None);
}

#[test]
fn format_eta_formats_reasonable_strings() {
    assert_eq!(format_eta(None), "unknown");
    assert_eq!(format_eta(Some(5)), "5s");
    assert_eq!(format_eta(Some(65)), "1m 05s");
    assert_eq!(format_eta(Some(3661)), "1h 01m 01s");
}

#[test]
fn log_classification_matches_severity() {
    assert_eq!(log_ffmpeg_line("Error while decoding stream"), LogVerdict::ErrorLog);
    assert_eq!(log_ffmpeg_line("deprecated pixel format used"), LogVerdict::WarnLog);
    assert_eq!(
        log_ffmpeg_line("frame=1 time=00:00:01.00 speed=1x"),
        LogVerdict::DebugLog
    );
    assert_eq!(log_ffmpeg_line("[hls @ 0x5616] some muxer note"), LogVerdict::Quiet);
    assert_eq!(log_ffmpeg_line("Input #0, mov, from 'in.mp4':"), LogVerdict::DebugLog);
    assert_eq!(log_ffmpeg_line("completely unrelated chatter"), LogVerdict::Quiet);
}

#[test]
fn tracker_reports_ratio_and_eta() {
    let mut t = ProgressTracker::new(10_000, 0);
    let act = t.observe_line(b"time=00:00:05.00 bitrate=1k speed=1.0x", 100);
    assert_eq!(act.progress_update, Some(500_000));
    assert_eq!(act.eta_update, Some(Some(5_000)));

    // A rewind is dropped whole.
    let rewind = t.observe_line(b"time=00:00:01.00 speed=1.0x", 200);
    assert_eq!(rewind.progress_update, None);
    assert_eq!(rewind.eta_update, None);

    // A tiny step within the epsilon and the update interval is suppressed.
    let tiny = t.observe_line(b"time=00:00:05.01 speed=1.0x", 300);
    assert_eq!(tiny.progress_update, None);
}

#[test]
fn tracker_finish_drives_progress_to_one() {
    let mut t = ProgressTracker::new(10_000, 0);
    t.observe_line(b"time=00:00:05.00 speed=1.0x", 100);
    let act = t.finish();
    assert_eq!(act.progress_update, Some(1_000_000));
    assert_eq!(act.eta_update, Some(Some(0)));

    let mut done = ProgressTracker::new(10_000, 0);
    done.observe_line(b"time=00:00:10.00 speed=1.0x", 100);
    let act = done.finish();
    assert_eq!(act.progress_update, None);
    assert_eq!(act.eta_update, Some(Some(0)));
}

#[test]
fn unknown_duration_drains_without_updates() {
    assert_eq!(monitor_mode(None), MonitorMode::Drain);
    assert_eq!(monitor_mode(Some(0)), MonitorMode::Drain);
    assert_eq!(monitor_mode(Some(5_000)), MonitorMode::Track);
}

#[test]
fn splitter_handles_mixed_terminators_and_partials() {
    let mut s = LineSplitter::new();
    let lines = s.push_chunk(b"ab\rcd\nef");
    assert_eq!(lines, vec![b"ab".to_vec(), b"cd".to_vec()]);
    let more = s.push_chunk(b"gh\n\r\n");
    assert_eq!(more, vec![b"efgh".to_vec()]);
    let tail = s.push_chunk(b"tail");
    assert!(tail.is_empty());
    assert_eq!(s.take_pending(), b"tail".to_vec());
    assert!(s.take_pending().is_empty());
}
