use vrs::acquire::{
    aria2_outcome, binary_name, build_aria2_args, build_ytdlp_args, classify_source,
    last_nonempty_line, resolve_ytdlp_output, should_use_aria2, AcquireRoute, Aria2Outcome,
};

#[test]
fn aria2_detection_handles_magnet() {
    assert!(should_use_aria2("magnet:?xt=urn:btih:test", None));
}

#[test]
fn aria2_detection_handles_ftp() {
    let scheme = "ftp".to_string();
    assert!(should_use_aria2("ftp://example.com/video.mp4", Some(&scheme)));
}

#[test]
fn aria2_detection_skips_https() {
    let scheme = "https".to_string();
    assert!(!should_use_aria2("https://example.com/video.mp4", Some(&scheme)));
}

#[test]
fn classification_routes_by_scheme() {
    assert_eq!(classify_source("magnet:?xt=urn:btih:abc"), AcquireRoute::Aria2);
    assert_eq!(classify_source("https://host/file.TORRENT"), AcquireRoute::Aria2);
    assert_eq!(classify_source("ftp://host/file"), AcquireRoute::Aria2);
    assert_eq!(classify_source("ftps://host/file"), AcquireRoute::Aria2);
    assert_eq!(classify_source("https://host/file.mp4"), AcquireRoute::Http);
    assert_eq!(classify_source("http://host/file.mp4"), AcquireRoute::Http);
    assert_eq!(classify_source("not a url at all"), AcquireRoute::InvalidUrl);
}

#[test]
fn aria2_args_keep_the_contractual_flags() {
    let args = build_aria2_args("https://host/f.bin", "/tmp/incoming", false, "f.incoming");
    assert_eq!(
        args,
        vec![
            "--allow-overwrite=true",
            "--auto-file-renaming=false",
            "--summary-interval=0",
            "--seed-time=0",
            "--bt-seed-until=0",
            "--bt-stop-timeout=0",
            "--bt-remove-unselected-file=true",
            "--bt-save-metadata=false",
            "--dir",
            "/tmp/incoming",
            "--out",
            "f.incoming",
            "https://host/f.bin",
        ]
    );

    let magnet = build_aria2_args("magnet:?xt=x", "/tmp/incoming", true, "ignored");
    assert!(!magnet.iter().any(|a| a == "--out"));
    assert_eq!(magnet.last().map(|s| s.as_str()), Some("magnet:?xt=x"));
}

#[test]
fn ytdlp_args_print_the_final_path() {
    let args = build_ytdlp_args("/tmp/incoming/a.%(ext)s", "https://videos.example/watch?v=1");
    assert_eq!(
        args,
        vec![
            "-f",
            "bv*+ba/b",
            "--no-playlist",
            "--print",
            "after_move:filepath",
            "-o",
            "/tmp/incoming/a.%(ext)s",
            "https://videos.example/watch?v=1",
        ]
    );
}

#[test]
fn last_stdout_line_wins() {
    assert_eq!(
        last_nonempty_line("warning\n/tmp/out/file.mp4\n"),
        Some(b"/tmp/out/file.mp4".to_vec())
    );
    assert_eq!(last_nonempty_line("one\ntwo"), Some(b"two".to_vec()));
    assert_eq!(last_nonempty_line("\n\n"), None);
    assert_eq!(last_nonempty_line(""), None);
}

#[test]
fn aria2_adoption_requires_exactly_one_new_file() {
    assert_eq!(aria2_outcome(true, 0, false), Aria2Outcome::TargetReady);
    assert_eq!(aria2_outcome(false, 1, true), Aria2Outcome::AdoptSingle);
    assert_eq!(aria2_outcome(false, 1, false), Aria2Outcome::Unexpected);
    assert_eq!(aria2_outcome(false, 2, true), Aria2Outcome::Unexpected);
    assert_eq!(aria2_outcome(false, 0, false), Aria2Outcome::Unexpected);
}

#[test]
fn ytdlp_output_resolution_and_rename() {
    let (path, rename) = resolve_ytdlp_output("/a/b.mp4", "/a", "/a/b.mp4");
    assert_eq!(path, "/a/b.mp4");
    assert!(!rename);

    let (rel, rename) = resolve_ytdlp_output("b.mp4", "/a", "/a/target.incoming");
    assert_eq!(rel, "/a/b.mp4");
    assert!(rename);
}

#[test]
fn binary_name_reflects_platform() {
    assert_eq!(binary_name("yt-dlp", false), "yt-dlp");
    assert_eq!(binary_name("yt-dlp", true), "yt-dlp.exe");
}
