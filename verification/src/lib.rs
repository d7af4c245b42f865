//! Verified core of a video ingest and adaptive-streaming service.
//!
//! The library holds the logic of the service: job lifecycle and progress
//! accounting, the rendition-ladder planner, encoder selection and argument
//! construction, byte-range and asset-path validation, storage path layout,
//! and the capacity-aware cleanup policy. Progress ratios are held as
//! fixed-point parts-per-million and times as integer milliseconds, so that
//! every bound and formula is provable.

use vstd::prelude::*;

pub mod acquire;
pub mod cleanup;
pub mod delivery;
pub mod encoder;
pub mod error;
pub mod ids;
pub mod jobs;
pub mod monitor;
pub mod numfmt;
pub mod pipeline;
pub mod storage;
pub mod streams;
pub mod textscan;
pub mod upload;

pub use jobs::JobStage;
pub use jobs::JobStatusResponse;
pub use jobs::LocalJobStore;
pub use storage::Storage;

verus! {

/// Scale of fixed-point progress ratios: one million parts equal 1.0.
pub const RATIO_ONE: u32 = 1_000_000;

/// Clamp a raw fixed-point ratio into `[0, RATIO_ONE]`.
pub fn clamp_ratio(raw: u32) -> (r: u32)
    ensures
        r == spec_clamp_ratio(raw),
        r <= RATIO_ONE,
{
    if raw > RATIO_ONE {
        RATIO_ONE
    } else {
        raw
    }
}

/// What `clamp_ratio` returns: the ratio, cut off at one.
pub open spec fn spec_clamp_ratio(raw: u32) -> u32 {
    if raw > RATIO_ONE {
        RATIO_ONE
    } else {
        raw
    }
}

/// Clamping is idempotent: a clamped ratio passes through unchanged.
pub proof fn lemma_clamp_ratio_idempotent(raw: u32)
    ensures
        spec_clamp_ratio(spec_clamp_ratio(raw)) == spec_clamp_ratio(raw),
{
}

} // verus!
