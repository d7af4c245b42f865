//! The capacity-aware cleanup policy: when disk space is short, the derived
//! artifacts of the oldest completed or failed jobs are pruned, a bounded
//! batch at a time.

use vstd::multiset::Multiset;
use vstd::prelude::*;

use crate::jobs::{JobStage, JobStatusResponse};

verus! {

broadcast use vstd::seq_lib::group_to_multiset_ensures;

/// The free-space thresholds and batch bound of the cleanup engine. The
/// ratio is in parts-per-million of the disk.
#[derive(Clone, Copy, Debug)]
pub struct CleanupConfig {
    pub minimum_free_bytes: u64,
    pub minimum_free_ratio_ppm: u32,
    pub max_cleanup_batch: usize,
}

/// The configured free-space ratio is capped at 0.9.
pub fn clamp_free_ratio_ppm(raw: u32) -> (r: u32)
    ensures
        r == if raw > 900_000 {
            900_000u32
        } else {
            raw
        },
{
    if raw > 900_000 {
        900_000
    } else {
        raw
    }
}

/// Cleanup runs when the free bytes fall short of the absolute floor, or
/// the free share of the disk falls short of the configured ratio. An empty
/// disk report (zero total) counts as a full disk share.
pub open spec fn spec_needs_cleanup(free_bytes: u64, total_bytes: u64, cfg: CleanupConfig) -> bool {
    ||| free_bytes < cfg.minimum_free_bytes
    ||| (if total_bytes > 0 {
        (free_bytes as int) * 1_000_000 < (cfg.minimum_free_ratio_ppm as int) * (
        total_bytes as int)
    } else {
        1_000_000 < cfg.minimum_free_ratio_ppm
    })
}

/// Decide whether cleanup must run, from a disk report.
pub fn needs_cleanup(free_bytes: u64, total_bytes: u64, cfg: &CleanupConfig) -> (r: bool)
    ensures
        r == spec_needs_cleanup(free_bytes, total_bytes, *cfg),
{
    if free_bytes < cfg.minimum_free_bytes {
        return true;
    }
    if total_bytes > 0 {
        proof {
            assert((cfg.minimum_free_ratio_ppm as int) * (total_bytes as int)
                < 0x100000000000000000000000000) by (nonlinear_arith)
                requires
                    cfg.minimum_free_ratio_ppm <= 0xFFFFFFFFu32,
                    total_bytes <= 0xFFFFFFFFFFFFFFFFu64,
            ;
        }
        (free_bytes as u128) * 1_000_000 < (cfg.minimum_free_ratio_ppm as u128) * (
        total_bytes as u128)
    } else {
        1_000_000 < cfg.minimum_free_ratio_ppm
    }
}

/// A job whose artifacts may be pruned: it reached a terminal stage.
pub open spec fn spec_is_terminal(stage: JobStage) -> bool {
    stage == JobStage::Complete || stage == JobStage::Failed
}

/// The prunable jobs of a listing, as `(identifier, last update)` pairs, in
/// listing order.
pub open spec fn spec_candidate_pairs(ss: Seq<JobStatusResponse>) -> Seq<(u128, u64)> {
    ss.filter(|s: JobStatusResponse| spec_is_terminal(s.stage)).map_values(
        |s: JobStatusResponse| (s.id, s.last_update_unix_ms),
    )
}

fn sort_pairs_by_update(input: Vec<(u128, u64)>) -> (r: Vec<(u128, u64)>)
    ensures
        r@.to_multiset() == input@.to_multiset(),
        forall|i: int, j: int| 0 <= i < j < r@.len() ==> r@[i].1 <= r@[j].1,
{
    let mut rest = input;
    let ghost input_ms = rest@.to_multiset();
    let mut out: Vec<(u128, u64)> = Vec::new();
    proof {
        assert(out@.to_multiset().add(rest@.to_multiset()) =~= input_ms);
    }
    while rest.len() > 0
        invariant
            out@.to_multiset().add(rest@.to_multiset()) == input_ms,
            forall|i: int, j: int| 0 <= i < j < out@.len() ==> out@[i].1 <= out@[j].1,
            forall|i: int, j: int|
                0 <= i < out@.len() && 0 <= j < rest@.len() ==> out@[i].1 <= rest@[j].1,
        decreases rest@.len(),
    {
        let n = rest.len();
        let mut mi: usize = 0;
        let mut k: usize = 1;
        while k < n
            invariant
                n == rest@.len(),
                mi < k <= n,
                forall|j: int| 0 <= j < k ==> rest@[mi as int].1 <= rest@[j].1,
            decreases n - k,
        {
            if rest[k].1 < rest[mi].1 {
                mi = k;
            }
            k = k + 1;
        }
        let item = rest.remove(mi);
        out.push(item);
        proof {
            assert(out@.to_multiset().add(rest@.to_multiset()) =~= input_ms);
        }
    }
    proof {
        assert(rest@.len() == 0);
        assert(rest@.to_multiset() =~= Multiset::<(u128, u64)>::empty());
        assert(out@.to_multiset() =~= input_ms);
    }
    out
}

/// The cleanup order: every completed or failed job of the listing, oldest
/// `last_update` first, as `(identifier, last update)` pairs. Active jobs
/// are never candidates.
pub fn cleanup_candidates(statuses: &Vec<JobStatusResponse>) -> (r: Vec<(u128, u64)>)
    ensures
        r@.to_multiset() == spec_candidate_pairs(statuses@).to_multiset(),
        forall|i: int, j: int| 0 <= i < j < r@.len() ==> r@[i].1 <= r@[j].1,
{
    let ghost pred = |s: JobStatusResponse| spec_is_terminal(s.stage);
    let ghost f = |s: JobStatusResponse| (s.id, s.last_update_unix_ms);
    let n = statuses.len();
    let mut picked: Vec<(u128, u64)> = Vec::new();
    let mut i: usize = 0;
    proof {
        reveal(Seq::filter);
        assert(statuses@.take(0).filter(pred) =~= Seq::<JobStatusResponse>::empty());
        assert(picked@ =~= statuses@.take(0).filter(pred).map_values(f));
    }
    while i < n
        invariant
            n == statuses@.len(),
            i <= n,
            picked@ == statuses@.take(i as int).filter(pred).map_values(f),
            pred == |s: JobStatusResponse| spec_is_terminal(s.stage),
            f == |s: JobStatusResponse| (s.id, s.last_update_unix_ms),
        decreases n - i,
    {
        let s = &statuses[i];
        let terminal = s.stage == JobStage::Complete || s.stage == JobStage::Failed;
        proof {
            reveal(Seq::filter);
            let t1 = statuses@.take(i as int + 1);
            assert(t1.drop_last() =~= statuses@.take(i as int));
            assert(t1.last() == statuses@[i as int]);
            if pred(statuses@[i as int]) {
                assert(t1.filter(pred) =~= statuses@.take(i as int).filter(pred).push(
                    statuses@[i as int],
                ));
                assert(t1.filter(pred).map_values(f) =~= statuses@.take(i as int).filter(
                    pred,
                ).map_values(f).push(f(statuses@[i as int])));
            } else {
                assert(t1.filter(pred) =~= statuses@.take(i as int).filter(pred));
            }
        }
        if terminal {
            picked.push((s.id, s.last_update_unix_ms));
        }
        i = i + 1;
    }
    proof {
        assert(statuses@.take(n as int) =~= statuses@);
    }
    sort_pairs_by_update(picked)
}

/// Whether the pruning loop goes on: it stops at the batch bound and as
/// soon as the disk is satisfied.
pub fn should_continue_cleanup(cleaned: usize, max_batch: usize, still_needed: bool) -> (r: bool)
    ensures
        r == (cleaned < max_batch && still_needed),
{
    cleaned < max_batch && still_needed
}

} // verus!
