use vrs::encoder::EncodeParams;
use vrs::ids::JobId;
use vrs::pipeline::{
    advance_pipeline, pipeline_plan, DriverAction, DriverPhase, SubmissionKind,
};
use vrs::upload::{build_upload_response, ClientTranscodeOptions};
use vrs::JobStage;

#[test]
fn upload_response_uses_expected_urls() {
    let id = JobId::new(0x0011_2233_4455_6677_8899_aabb_ccdd_eeff);
    let response = build_upload_response(&id);
    assert_eq!(response.id, "00112233-4455-6677-8899-aabbccddeeff");
    assert!(response.status_url.ends_with(&response.id));
    assert_eq!(response.status_url, format!("/jobs/{}", response.id));
    assert_eq!(response.download_url, format!("/videos/{}/download", response.id));
    assert_eq!(
        response.hls_master_url,
        format!("/videos/{}/hls/master.m3u8", response.id)
    );
    assert_eq!(
        response.dash_manifest_url,
        format!("/videos/{}/dash/manifest.mpd", response.id)
    );
}

#[test]
fn client_options_override_defaults() {
    let params: EncodeParams =
        ClientTranscodeOptions { crf: Some(12), cpu_used: Some(2) }.into();
    assert_eq!(params.crf, 12);
    assert_eq!(params.cpu_used, 2);

    let sanitized: EncodeParams =
        ClientTranscodeOptions { crf: Some(80), cpu_used: Some(99) }.into();
    assert_eq!(sanitized.crf, 63);
    assert_eq!(sanitized.cpu_used, 8);

    let defaults: EncodeParams = ClientTranscodeOptions::default().into();
    assert_eq!(defaults.crf, 24);
    assert_eq!(defaults.cpu_used, 4);
}

#[test]
fn plans_follow_the_submission_shape() {
    assert_eq!(
        pipeline_plan(SubmissionKind::Local),
        vec![JobStage::Uploading, JobStage::Transcoding]
    );
    assert_eq!(
        pipeline_plan(SubmissionKind::Remote),
        vec![JobStage::Downloading, JobStage::Transcoding]
    );
    assert_eq!(
        pipeline_plan(SubmissionKind::YtDlp),
        vec![JobStage::Downloading, JobStage::Transcoding]
    );
}

#[test]
fn driver_walks_the_stages_in_order() {
    let kind = SubmissionKind::Remote;
    let (p1, a1) = advance_pipeline(DriverPhase::Cleanup, kind, true);
    assert_eq!((p1, a1), (DriverPhase::Acquire, DriverAction::EnterAcquisition));
    let (p2, a2) = advance_pipeline(p1, kind, true);
    assert_eq!((p2, a2), (DriverPhase::Transcode, DriverAction::EnterTranscode));
    let (p3, a3) = advance_pipeline(p2, kind, true);
    assert_eq!((p3, a3), (DriverPhase::Finalize, DriverAction::EnterFinalize));
    let (p4, a4) = advance_pipeline(p3, kind, true);
    assert_eq!((p4, a4), (DriverPhase::Done, DriverAction::MarkComplete));

    // A local upload skips acquisition.
    let (lp, la) = advance_pipeline(DriverPhase::Cleanup, SubmissionKind::Local, true);
    assert_eq!((lp, la), (DriverPhase::Transcode, DriverAction::EnterTranscode));
}

#[test]
fn any_failed_step_fails_the_job() {
    for phase in [
        DriverPhase::Cleanup,
        DriverPhase::Acquire,
        DriverPhase::Transcode,
        DriverPhase::Finalize,
    ] {
        let (next, action) = advance_pipeline(phase, SubmissionKind::Remote, false);
        assert_eq!(next, DriverPhase::Failed);
        assert_eq!(action, DriverAction::MarkFailed);
    }
}
