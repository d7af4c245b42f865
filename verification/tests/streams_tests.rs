use std::collections::HashSet;

use vrs::streams::{
    build_filter_complex, build_var_stream_map, ensure_even, estimate_bitrates, map_audio_bitrate,
    scaled_dimensions, select_renditions, AudioBitrateTier, Rendition, VideoGeometry,
};

fn heights(renditions: &[Rendition]) -> Vec<u32> {
    renditions.iter().map(|item| item.height).collect()
}

fn sample_renditions() -> Vec<Rendition> {
    vec![
        Rendition {
            name: "1080p".to_string(),
            width: 1920,
            height: 1080,
            bitrate: 6000,
            maxrate: 6500,
            bufsize: 8000,
        },
        Rendition {
            name: "720p".to_string(),
            width: 1280,
            height: 720,
            bitrate: 3000,
            maxrate: 3500,
            bufsize: 4000,
        },
    ]
}

#[test]
fn streams_ultrawide_source_produces_descending_unique_even_rungs() {
    let renditions = select_renditions(VideoGeometry { width: 5120, height: 2160 });

    assert!(!renditions.is_empty());
    assert!(renditions.len() <= 5);
    assert_eq!(renditions[0].height, 2160);
    assert_eq!(renditions[0].width, 5120);

    let mut last_height = u32::MAX;
    let mut seen_pairs = HashSet::new();
    for rung in &renditions {
        assert!(rung.height <= 2160);
        assert!(rung.width <= 5120);
        assert_eq!(rung.height % 2, 0);
        assert_eq!(rung.width % 2, 0);
        assert!(rung.height <= last_height);
        assert!(seen_pairs.insert((rung.width, rung.height)));
        last_height = rung.height;
    }
}

#[test]
fn streams_sixteen_nine_source_matches_expected_ladder() {
    let renditions = select_renditions(VideoGeometry { width: 1920, height: 1080 });
    assert_eq!(heights(&renditions), vec![1080, 900, 720, 540, 480]);
    for rung in renditions {
        assert!(rung.width <= 1920);
        assert_eq!(rung.width % 2, 0);
    }
}

#[test]
fn streams_tall_video_keeps_vertical_ladder() {
    let renditions = select_renditions(VideoGeometry { width: 1080, height: 1920 });
    assert_eq!(heights(&renditions), vec![1920, 1600, 1440, 1200, 1080]);
    for rung in renditions {
        assert!(rung.width <= 1080);
    }
}

#[test]
fn streams_filter_complex_matches_expected_layout() {
    let filter = build_filter_complex(&sample_renditions());
    assert_eq!(
        filter,
        "[0:v]scale=-2:1080:flags=lanczos[v0];[0:v]scale=-2:720:flags=lanczos[v1]"
    );
}

#[test]
fn streams_var_stream_map_handles_audio_and_video() {
    let renditions = sample_renditions();
    let with_audio = build_var_stream_map(&renditions, true);
    assert_eq!(with_audio, "v:0,a:0,name:1080p v:1,a:0,name:720p");

    let without_audio = build_var_stream_map(&renditions, false);
    assert_eq!(without_audio, "v:0,name:1080p v:1,name:720p");
}

#[test]
fn streams_bitrate_estimates_scale_with_resolution() {
    let high = estimate_bitrates(1920, 1080);
    let mid = estimate_bitrates(1280, 720);
    let low = estimate_bitrates(640, 360);

    assert!(high.0 > mid.0);
    assert!(high.1 > mid.1);
    assert!(high.2 > mid.2);
    assert!(mid.0 > low.0);
}

#[test]
fn bitrate_formula_hits_reference_values() {
    assert_eq!(estimate_bitrates(1920, 1080), (4500, 5850, 11250));
    assert_eq!(estimate_bitrates(1280, 720), (2000, 2600, 5000));
    assert_eq!(estimate_bitrates(640, 360), (500, 650, 1250));
    // The clamp floor and ceiling.
    assert_eq!(estimate_bitrates(2, 2).0, 320);
    assert_eq!(estimate_bitrates(60000, 60000).0, 22000);
}

#[test]
fn every_rung_bitrate_stays_in_range() {
    for geometry in [
        VideoGeometry { width: 2, height: 2 },
        VideoGeometry { width: 320, height: 240 },
        VideoGeometry { width: 1920, height: 1080 },
        VideoGeometry { width: 5120, height: 2160 },
        VideoGeometry { width: 7680, height: 4320 },
    ] {
        for rung in select_renditions(geometry) {
            assert!(rung.bitrate >= 320);
            assert!(rung.bitrate <= 22000);
        }
    }
}

#[test]
fn degenerate_geometry_still_yields_one_rung() {
    let renditions = select_renditions(VideoGeometry { width: 2, height: 3 });
    assert_eq!(renditions.len(), 1);
    assert!(renditions[0].width >= 2);
    assert!(renditions[0].height >= 2);
    assert_eq!(renditions[0].width % 2, 0);
    assert_eq!(renditions[0].height % 2, 0);
}

#[test]
fn ensure_even_rounds_up() {
    assert_eq!(ensure_even(3), 4);
    assert_eq!(ensure_even(4), 4);
}

#[test]
fn scaled_dimensions_preserve_aspect_ratio() {
    let dims = scaled_dimensions((3840, 2160), 720);
    assert_eq!(dims, (1280, 720));

    let fallback = scaled_dimensions((0, 0), 720);
    assert_eq!(fallback.1, 720);
    assert_eq!(fallback.0 % 2, 0);
}

#[test]
fn map_audio_bitrate_matches_profiles() {
    assert_eq!(map_audio_bitrate("192k"), AudioBitrateTier::High);
    assert_eq!(map_audio_bitrate("128k"), AudioBitrateTier::Medium);
    assert_eq!(map_audio_bitrate("64k"), AudioBitrateTier::Low);
}
