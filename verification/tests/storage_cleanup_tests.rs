use vrs::cleanup::{
    cleanup_candidates, clamp_free_ratio_ppm, needs_cleanup, should_continue_cleanup,
    CleanupConfig,
};
use vrs::ids::JobId;
use vrs::jobs::{Clock, JobStage, LocalJobStore};
use vrs::storage::{prune_decision, Storage};

fn at(ms: u64) -> Clock {
    Clock { mono_ms: ms, wall_ms: ms }
}

#[test]
fn storage_paths_follow_the_layout() {
    let storage = Storage::new("/data", "/tmp");
    let id = JobId::new(0);
    let zeros = "00000000-0000-0000-0000-000000000000";

    assert_eq!(storage.root_dir(), "/data");
    assert_eq!(storage.tmp_dir(), "/tmp/vrs");
    assert_eq!(storage.libs_dir(), "/data/libs");
    assert_eq!(storage.video_dir(&id), format!("/data/videos/{zeros}"));
    assert_eq!(
        storage.download_path(&id),
        format!("/data/videos/{zeros}/download.webm")
    );
    assert_eq!(
        storage.incoming_path(&id),
        "/tmp/vrs/incoming/00000000000000000000000000000000.incoming"
    );
    assert_eq!(storage.hls_dir(&id), format!("/tmp/vrs/hls/{zeros}"));
    assert_eq!(storage.dash_dir(&id), format!("/tmp/vrs/dash/{zeros}"));
}

#[test]
fn identifier_strings_match_canonical_forms() {
    let value: u128 = 0x0123_4567_89ab_cdef_0123_4567_89ab_cdef;
    let id = JobId::new(value);
    let reference = uuid::Uuid::from_u128(value);
    assert_eq!(id.hyphenated(), reference.hyphenated().to_string());
    assert_eq!(id.simple(), reference.simple().to_string());
}

#[test]
fn prune_removes_what_exists_and_only_that() {
    let first = prune_decision(true, true);
    assert!(first.remove_hls);
    assert!(first.remove_dash);
    assert!(first.pruned);

    // After a successful prune both trees are gone: nothing is pruned again.
    let second = prune_decision(false, false);
    assert!(!second.remove_hls);
    assert!(!second.remove_dash);
    assert!(!second.pruned);
}

#[test]
fn cleanup_triggers_on_either_threshold() {
    let cfg = CleanupConfig {
        minimum_free_bytes: 1_000,
        minimum_free_ratio_ppm: 100_000,
        max_cleanup_batch: 5,
    };
    // Plenty of space.
    assert!(!needs_cleanup(10_000, 100_000, &cfg));
    // Below the absolute floor.
    assert!(needs_cleanup(999, 100_000, &cfg));
    // Below the ratio: 5% free of the disk.
    assert!(needs_cleanup(5_000, 100_000, &cfg));

    // An impossible demand always triggers.
    let greedy = CleanupConfig {
        minimum_free_bytes: u64::MAX,
        minimum_free_ratio_ppm: clamp_free_ratio_ppm(1_000_000),
        max_cleanup_batch: 5,
    };
    assert_eq!(greedy.minimum_free_ratio_ppm, 900_000);
    assert!(needs_cleanup(u64::MAX - 1, u64::MAX, &greedy));
}

#[test]
fn cleanup_picks_terminal_jobs_oldest_first() {
    let mut store = LocalJobStore::new();
    store.create_job(1, at(0));
    store.create_job(2, at(0));
    store.create_job(3, at(0));
    // Job 2 finished long ago, job 3 failed recently, job 1 is active.
    store.complete(2, at(100));
    store.fail(3, "boom".to_string(), at(500));
    store.update_stage(1, JobStage::Transcoding, at(900));

    let statuses = store.list(at(1_000));
    let candidates = cleanup_candidates(&statuses);
    let ids: Vec<u128> = candidates.iter().map(|c| c.0).collect();
    assert_eq!(ids, vec![2, 3]);
}

#[test]
fn cleanup_loop_respects_batch_and_satisfaction() {
    assert!(should_continue_cleanup(0, 5, true));
    assert!(!should_continue_cleanup(5, 5, true));
    assert!(!should_continue_cleanup(0, 5, false));
}
