use vrs::jobs::{millis_since_epoch, Clock, JobStage, LocalJobStore};
use vrs::RATIO_ONE;

fn at(ms: u64) -> Clock {
    Clock { mono_ms: ms, wall_ms: 1_700_000_000_000 + ms }
}

#[test]
fn local_job_store_lifecycle() {
    let mut store = LocalJobStore::new();
    let id: u128 = 0x42;

    store.create_job(id, at(0));
    store.set_plan(id, vec![JobStage::Downloading, JobStage::Transcoding], at(1));

    let initial = store.status(id, at(1)).expect("job missing after create");
    assert_eq!(initial.stage, JobStage::Queued);
    assert_eq!(initial.progress, 0);
    assert_eq!(initial.stage_progress, 0);
    assert_eq!(initial.current_stage_index, None);
    assert_eq!(initial.total_stages, 2);

    store.update_stage(id, JobStage::Downloading, at(10));
    store.update_progress(id, RATIO_ONE / 2, at(20));

    let downloading = store.status(id, at(20)).expect("job missing after update");
    assert_eq!(downloading.stage, JobStage::Downloading);
    assert_eq!(downloading.stage_progress, RATIO_ONE / 2);
    assert_eq!(downloading.progress, RATIO_ONE / 4);
    assert_eq!(downloading.current_stage_index, Some(1));
    assert_eq!(downloading.total_stages, 2);

    // A report above one clamps to one.
    store.update_progress(id, RATIO_ONE + 500_000, at(30));
    let clamped = store.status(id, at(30)).expect("job missing after clamp");
    assert_eq!(clamped.stage, JobStage::Downloading);
    assert_eq!(clamped.stage_progress, RATIO_ONE);
    assert_eq!(clamped.progress, RATIO_ONE / 2);

    store.update_stage(id, JobStage::Transcoding, at(40));
    store.update_progress(id, 400_000, at(50));

    let transcoding = store.status(id, at(50)).expect("job missing after stage change");
    assert_eq!(transcoding.stage, JobStage::Transcoding);
    assert_eq!(transcoding.stage_progress, 400_000);
    assert_eq!(transcoding.progress, 700_000);
    assert_eq!(transcoding.current_stage_index, Some(2));

    store.fail(id, "network".to_string(), at(60));
    let failed = store.status(id, at(60)).expect("job missing after fail");
    assert_eq!(failed.stage, JobStage::Failed);
    assert_eq!(failed.error.as_deref(), Some("network"));
    assert_eq!(failed.progress, failed.stage_progress);

    store.complete(id, at(70));
    let complete = store.status(id, at(70)).expect("job missing after complete");
    assert_eq!(complete.stage, JobStage::Complete);
    assert_eq!(complete.progress, RATIO_ONE);
    assert_eq!(complete.stage_progress, RATIO_ONE);
    assert!(complete.error.is_some());
    assert_eq!(complete.estimated_remaining_seconds, Some(0));

    let all = store.list(at(80));
    assert_eq!(all.len(), 1);
    assert_eq!(all[0].id, id);
}

#[test]
fn progress_aggregation_splits_across_plan() {
    let mut store = LocalJobStore::new();
    let id: u128 = 7;
    store.create_job(id, at(0));
    store.set_plan(id, vec![JobStage::Downloading, JobStage::Transcoding], at(0));
    store.update_stage(id, JobStage::Downloading, at(1));
    store.update_progress(id, 420_000, at(2));

    let s = store.status(id, at(2)).expect("status");
    assert_eq!(s.stage_progress, 420_000);
    assert_eq!(s.progress, 210_000);
}

#[test]
fn update_progress_is_idempotent() {
    let mut store = LocalJobStore::new();
    let id: u128 = 9;
    store.create_job(id, at(0));
    store.set_plan(id, vec![JobStage::Downloading, JobStage::Transcoding], at(0));
    store.update_stage(id, JobStage::Downloading, at(1));

    store.update_progress(id, 330_000, at(5));
    let first = store.status(id, at(5)).expect("status");
    store.update_progress(id, 330_000, at(5));
    let second = store.status(id, at(5)).expect("status");

    assert_eq!(first.stage, second.stage);
    assert_eq!(first.progress, second.progress);
    assert_eq!(first.stage_progress, second.stage_progress);
    assert_eq!(first.last_update_unix_ms, second.last_update_unix_ms);
    assert_eq!(first.estimated_remaining_seconds, second.estimated_remaining_seconds);
}

#[test]
fn progress_stays_within_unit_interval() {
    let mut store = LocalJobStore::new();
    let id: u128 = 11;
    store.create_job(id, at(0));
    store.set_plan(
        id,
        vec![JobStage::Uploading, JobStage::Transcoding],
        at(0),
    );
    for (stage, raw) in [
        (JobStage::Uploading, 0u32),
        (JobStage::Uploading, 4_000_000),
        (JobStage::Transcoding, 999_999),
        (JobStage::Finalizing, 500_000),
        (JobStage::Failed, 123_456),
    ] {
        store.update_stage(id, stage, at(1));
        store.update_progress(id, raw, at(2));
        let s = store.status(id, at(3)).expect("status");
        assert!(s.progress <= RATIO_ONE);
        assert!(s.stage_progress <= RATIO_ONE);
    }
}

#[test]
fn eta_heuristic_uses_baseline_and_extrapolation() {
    let mut store = LocalJobStore::new();
    let id: u128 = 21;
    store.create_job(id, at(0));
    store.update_stage(id, JobStage::Transcoding, at(0));

    // Hardly any progress: the 45-minute baseline stands.
    store.update_progress(id, 10_000, at(1_000));
    let early = store.status(id, at(60_000)).expect("status");
    assert_eq!(early.estimated_remaining_seconds, Some(2_700));

    // Half done after 100 seconds: about 100 more seconds to go.
    store.update_progress(id, 500_000, at(2_000));
    let mid = store.status(id, at(100_000)).expect("status");
    assert_eq!(mid.estimated_remaining_seconds, Some(100));

    // A stored external estimate wins.
    store.update_stage_eta(id, Some(42_000), at(3_000));
    let stored = store.status(id, at(100_000)).expect("status");
    assert_eq!(stored.estimated_remaining_seconds, Some(42));
}

#[test]
fn unknown_job_mutations_are_noops() {
    let mut store = LocalJobStore::new();
    store.update_progress(999, 100, at(0));
    store.fail(999, "nope".to_string(), at(0));
    assert!(store.status(999, at(0)).is_none());
    assert_eq!(store.list(at(0)).len(), 0);
}

#[test]
fn millis_since_epoch_combines_parts() {
    assert_eq!(millis_since_epoch(1, 2_000_000), 1_002);
    assert_eq!(millis_since_epoch(0, 999_999), 0);
}
