//! The pipeline driver's decisions: the stage plan of each submission shape
//! and the ordered step transitions from acceptance to completion, with the
//! failure path.
//!
//! The surrounding task performs each returned action (cleanup, acquisition,
//! the encode, segmentation, store updates) and reports back whether it
//! succeeded; every decision in between is taken here.

use vstd::prelude::*;

use crate::jobs::JobStage;

verus! {

/// Overall progress reported when the progressive encode is done and
/// segmentation begins (0.95 in parts-per-million).
pub const NEAR_DONE_PPM: u32 = 950_000;

/// How the source was submitted.
#[derive(Clone, Copy, Debug, PartialEq, Eq, Structural)]
pub enum SubmissionKind {
    /// The bytes are already on disk (multipart upload).
    Local,
    /// A direct HTTP, FTP or torrent URL.
    Remote,
    /// A page URL fetched through the downloader tool.
    YtDlp,
}

/// The stage plan of a submission: uploads pass through uploading and
/// transcoding, URL submissions through downloading and transcoding.
pub open spec fn spec_pipeline_plan(kind: SubmissionKind) -> Seq<JobStage> {
    match kind {
        SubmissionKind::Local => seq![JobStage::Uploading, JobStage::Transcoding],
        SubmissionKind::Remote => seq![JobStage::Downloading, JobStage::Transcoding],
        SubmissionKind::YtDlp => seq![JobStage::Downloading, JobStage::Transcoding],
    }
}

/// The stage plan recorded for a submission.
pub fn pipeline_plan(kind: SubmissionKind) -> (r: Vec<JobStage>)
    ensures
        r@ == spec_pipeline_plan(kind),
{
    let r: Vec<JobStage> = match kind {
        SubmissionKind::Local => vec![JobStage::Uploading, JobStage::Transcoding],
        SubmissionKind::Remote => vec![JobStage::Downloading, JobStage::Transcoding],
        SubmissionKind::YtDlp => vec![JobStage::Downloading, JobStage::Transcoding],
    };
    proof {
        assert(r@ =~= spec_pipeline_plan(kind));
    }
    r
}

/// Where the driver stands.
#[derive(Clone, Copy, Debug, PartialEq, Eq, Structural)]
pub enum DriverPhase {
    /// Free disk space is being ensured.
    Cleanup,
    /// Bytes are being acquired into the incoming file.
    Acquire,
    /// The progressive encode is running.
    Transcode,
    /// HLS and DASH are being generated concurrently.
    Finalize,
    /// The job is complete.
    Done,
    /// The job failed.
    Failed,
}

/// What the surrounding task must do next.
#[derive(Clone, Copy, Debug, PartialEq, Eq, Structural)]
pub enum DriverAction {
    /// Run the cleanup engine.
    RunCleanup,
    /// Enter the acquisition stage and fetch the source.
    EnterAcquisition,
    /// Enter the transcoding stage and run the encode; remove the incoming
    /// temporary afterwards.
    EnterTranscode,
    /// Report overall progress `NEAR_DONE_PPM`, enter finalizing, and run
    /// the HLS and DASH generators concurrently.
    EnterFinalize,
    /// Report full progress with a zero ETA and mark the job complete.
    MarkComplete,
    /// Record the step's error on the job and delete the incoming
    /// temporary best-effort.
    MarkFailed,
    /// Nothing remains.
    Idle,
}

/// The next phase and action after one step: any failed step ends the
/// pipeline in `Failed` with the job marked failed; otherwise cleanup leads
/// to acquisition (which local submissions skip), acquisition to the
/// encode, the encode to segmentation, segmentation to completion.
pub open spec fn spec_advance(phase: DriverPhase, kind: SubmissionKind, step_ok: bool) -> (
    DriverPhase,
    DriverAction,
) {
    if !step_ok {
        (DriverPhase::Failed, DriverAction::MarkFailed)
    } else {
        match phase {
            DriverPhase::Cleanup => if kind == SubmissionKind::Local {
                (DriverPhase::Transcode, DriverAction::EnterTranscode)
            } else {
                (DriverPhase::Acquire, DriverAction::EnterAcquisition)
            },
            DriverPhase::Acquire => (DriverPhase::Transcode, DriverAction::EnterTranscode),
            DriverPhase::Transcode => (DriverPhase::Finalize, DriverAction::EnterFinalize),
            DriverPhase::Finalize => (DriverPhase::Done, DriverAction::MarkComplete),
            DriverPhase::Done => (DriverPhase::Done, DriverAction::Idle),
            DriverPhase::Failed => (DriverPhase::Failed, DriverAction::Idle),
        }
    }
}

/// Advance the driver after a step's outcome.
pub fn advance_pipeline(phase: DriverPhase, kind: SubmissionKind, step_ok: bool) -> (r: (
    DriverPhase,
    DriverAction,
))
    ensures
        r == spec_advance(phase, kind, step_ok),
        !step_ok ==> r.0 == DriverPhase::Failed && r.1 == DriverAction::MarkFailed,
{
    if !step_ok {
        (DriverPhase::Failed, DriverAction::MarkFailed)
    } else {
        match phase {
            DriverPhase::Cleanup => {
                if kind == SubmissionKind::Local {
                    (DriverPhase::Transcode, DriverAction::EnterTranscode)
                } else {
                    (DriverPhase::Acquire, DriverAction::EnterAcquisition)
                }
            },
            DriverPhase::Acquire => (DriverPhase::Transcode, DriverAction::EnterTranscode),
            DriverPhase::Transcode => (DriverPhase::Finalize, DriverAction::EnterFinalize),
            DriverPhase::Finalize => (DriverPhase::Done, DriverAction::MarkComplete),
            DriverPhase::Done => (DriverPhase::Done, DriverAction::Idle),
            DriverPhase::Failed => (DriverPhase::Failed, DriverAction::Idle),
        }
    }
}

/// Within a job, acquisition strictly precedes the encode, the encode
/// strictly precedes finalizing, and a failed step always lands the job in
/// the failed phase: the driver never skips forward and never leaves a
/// terminal phase.
pub proof fn lemma_pipeline_order(phase: DriverPhase, kind: SubmissionKind, step_ok: bool)
    ensures
        !step_ok ==> spec_advance(phase, kind, step_ok).0 == DriverPhase::Failed,
        spec_advance(phase, kind, step_ok).0 == DriverPhase::Finalize ==> phase
            == DriverPhase::Transcode,
        spec_advance(phase, kind, step_ok).0 == DriverPhase::Done ==> (phase
            == DriverPhase::Finalize || phase == DriverPhase::Done),
        spec_advance(phase, kind, step_ok).0 == DriverPhase::Transcode ==> (phase
            == DriverPhase::Cleanup || phase == DriverPhase::Acquire),
{
}

} // verus!
