//! The in-memory job store: lifecycle records, progress accounting and
//! status snapshots.
//!
//! Progress ratios are fixed-point parts-per-million (`RATIO_ONE` is 1.0),
//! times are integer milliseconds. The store is a sequence of records keyed
//! by the 128-bit job identifier; callers supply the current clock reading,
//! so every observable field is a pure function of the inputs.

use vstd::prelude::*;

use crate::{clamp_ratio, spec_clamp_ratio, RATIO_ONE};

verus! {

/// The lifecycle stage of a job.
#[derive(Clone, Copy, Debug, PartialEq, Eq, Structural)]
pub enum JobStage {
    Queued,
    Uploading,
    Downloading,
    Transcoding,
    Finalizing,
    Complete,
    Failed,
}

/// One reading of the clocks: a monotonic instant and a wall-clock time,
/// both in milliseconds.
#[derive(Clone, Copy, Debug, PartialEq, Eq, Structural)]
pub struct Clock {
    pub mono_ms: u64,
    pub wall_ms: u64,
}

/// The stored state of one job.
pub struct JobRecord {
    pub stage: JobStage,
    /// Stage progress in parts-per-million, always in `[0, RATIO_ONE]`.
    pub stage_progress: u32,
    /// The ordered stages the job is expected to pass through.
    pub plan: Vec<JobStage>,
    /// Set when the job failed.
    pub error: Option<String>,
    /// Externally supplied remaining-time estimate, milliseconds.
    pub stage_eta_ms: Option<u64>,
    pub started_mono_ms: u64,
    pub last_update_mono_ms: u64,
    pub started_wall_ms: u64,
    pub last_update_wall_ms: u64,
    pub stage_started_mono_ms: u64,
}

/// The mathematical value of a job record.
pub ghost struct JobView {
    pub stage: JobStage,
    pub stage_progress: u32,
    pub plan: Seq<JobStage>,
    pub error: Option<Seq<char>>,
    pub stage_eta_ms: Option<u64>,
    pub started_mono_ms: u64,
    pub last_update_mono_ms: u64,
    pub started_wall_ms: u64,
    pub last_update_wall_ms: u64,
    pub stage_started_mono_ms: u64,
}

impl View for JobRecord {
    type V = JobView;

    open spec fn view(&self) -> JobView {
        JobView {
            stage: self.stage,
            stage_progress: self.stage_progress,
            plan: self.plan@,
            error: match self.error {
                Some(e) => Some(e@),
                None => None,
            },
            stage_eta_ms: self.stage_eta_ms,
            started_mono_ms: self.started_mono_ms,
            last_update_mono_ms: self.last_update_mono_ms,
            started_wall_ms: self.started_wall_ms,
            last_update_wall_ms: self.last_update_wall_ms,
            stage_started_mono_ms: self.stage_started_mono_ms,
        }
    }
}

/// A fresh record: queued, no progress, empty plan, all clocks at `now`.
pub open spec fn fresh_view(now: Clock) -> JobView {
    JobView {
        stage: JobStage::Queued,
        stage_progress: 0,
        plan: Seq::<JobStage>::empty(),
        error: None,
        stage_eta_ms: None,
        started_mono_ms: now.mono_ms,
        last_update_mono_ms: now.mono_ms,
        started_wall_ms: now.wall_ms,
        last_update_wall_ms: now.wall_ms,
        stage_started_mono_ms: now.mono_ms,
    }
}

/// Replace the plan and touch the update clocks.
pub open spec fn with_plan(r: JobView, plan: Seq<JobStage>, now: Clock) -> JobView {
    JobView {
        plan,
        last_update_mono_ms: now.mono_ms,
        last_update_wall_ms: now.wall_ms,
        ..r
    }
}

/// Enter a stage: progress resets to zero, the ETA is cleared and the stage
/// clock restarts.
pub open spec fn with_stage(r: JobView, stage: JobStage, now: Clock) -> JobView {
    JobView {
        stage,
        stage_progress: 0,
        stage_eta_ms: None,
        stage_started_mono_ms: now.mono_ms,
        last_update_mono_ms: now.mono_ms,
        last_update_wall_ms: now.wall_ms,
        ..r
    }
}

/// Store a progress report, clamped into `[0, RATIO_ONE]`.
pub open spec fn with_progress(r: JobView, raw: u32, now: Clock) -> JobView {
    JobView {
        stage_progress: spec_clamp_ratio(raw),
        last_update_mono_ms: now.mono_ms,
        last_update_wall_ms: now.wall_ms,
        ..r
    }
}

/// Store or clear an externally supplied ETA.
pub open spec fn with_eta(r: JobView, eta_ms: Option<u64>, now: Clock) -> JobView {
    JobView {
        stage_eta_ms: eta_ms,
        last_update_mono_ms: now.mono_ms,
        last_update_wall_ms: now.wall_ms,
        ..r
    }
}

/// Mark the job failed with a message; the ETA is cleared.
pub open spec fn with_failure(r: JobView, message: Seq<char>, now: Clock) -> JobView {
    JobView {
        stage: JobStage::Failed,
        error: Some(message),
        stage_eta_ms: None,
        last_update_mono_ms: now.mono_ms,
        last_update_wall_ms: now.wall_ms,
        ..r
    }
}

/// Mark the job complete: progress is full and the ETA is zero.
pub open spec fn with_completion(r: JobView, now: Clock) -> JobView {
    JobView {
        stage: JobStage::Complete,
        stage_progress: RATIO_ONE,
        stage_eta_ms: Some(0),
        last_update_mono_ms: now.mono_ms,
        last_update_wall_ms: now.wall_ms,
        ..r
    }
}

/// Reporting the same progress value twice at the same instant is a no-op:
/// the second store leaves the record exactly as the first left it.
pub proof fn lemma_update_progress_idempotent(r: JobView, raw: u32, now: Clock)
    ensures
        with_progress(with_progress(r, raw, now), raw, now) == with_progress(r, raw, now),
{
}

/// A record is well formed when its stored progress is a valid ratio and
/// its plan fits a 32-bit stage count.
pub open spec fn record_inv(r: JobView) -> bool {
    &&& r.stage_progress <= RATIO_ONE
    &&& r.plan.len() <= u32::MAX
}

// ------------------------------------------------------------------
// Lookup over the entry sequence.
// ------------------------------------------------------------------

/// Index of the first entry with the given key, or -1.
pub open spec fn idx_of(s: Seq<(u128, JobRecord)>, id: u128) -> int
    decreases s.len(),
{
    if s.len() == 0 {
        -1
    } else if s[0].0 == id {
        0
    } else {
        let r = idx_of(s.drop_first(), id);
        if r < 0 {
            -1
        } else {
            r + 1
        }
    }
}

/// The record stored under `id`, if any.
pub open spec fn lookup(s: Seq<(u128, JobRecord)>, id: u128) -> Option<JobView> {
    let i = idx_of(s, id);
    if i < 0 {
        None
    } else {
        Some(s[i].1@)
    }
}

proof fn lemma_idx_of_props(s: Seq<(u128, JobRecord)>, id: u128)
    ensures
        -1 <= idx_of(s, id) < s.len(),
        idx_of(s, id) >= 0 ==> s[idx_of(s, id)].0 == id,
        idx_of(s, id) == -1 ==> forall|k: int| 0 <= k < s.len() ==> s[k].0 != id,
        forall|k: int| 0 <= k < idx_of(s, id) ==> s[k].0 != id,
    decreases s.len(),
{
    if s.len() > 0 && s[0].0 != id {
        lemma_idx_of_props(s.drop_first(), id);
        assert forall|k: int| 1 <= k < s.len() implies s.drop_first()[k - 1] == s[k] by {}
    }
}

proof fn lemma_idx_of_first(s: Seq<(u128, JobRecord)>, id: u128, i: int)
    requires
        0 <= i < s.len(),
        s[i].0 == id,
        forall|k: int| 0 <= k < i ==> s[k].0 != id,
    ensures
        idx_of(s, id) == i,
    decreases s.len(),
{
    if i > 0 {
        assert(s[0].0 != id);
        assert forall|k: int| 1 <= k < s.len() implies s.drop_first()[k - 1] == s[k] by {}
        lemma_idx_of_first(s.drop_first(), id, i - 1);
    }
}

proof fn lemma_idx_of_same_keys(s1: Seq<(u128, JobRecord)>, s2: Seq<(u128, JobRecord)>, id: u128)
    requires
        s1.len() == s2.len(),
        forall|k: int| 0 <= k < s1.len() ==> s1[k].0 == s2[k].0,
    ensures
        idx_of(s1, id) == idx_of(s2, id),
    decreases s1.len(),
{
    if s1.len() > 0 {
        assert forall|k: int| 1 <= k < s1.len() implies s1.drop_first()[k - 1] == s1[k]
            && s2.drop_first()[k - 1] == s2[k] by {}
        lemma_idx_of_same_keys(s1.drop_first(), s2.drop_first(), id);
    }
}

/// No two entries share a key.
pub open spec fn unique_keys(s: Seq<(u128, JobRecord)>) -> bool {
    forall|k1: int, k2: int| 0 <= k1 < k2 < s.len() ==> s[k1].0 != s[k2].0
}

proof fn lemma_lookup_update(s: Seq<(u128, JobRecord)>, i: int, rec: JobRecord, id: u128)
    requires
        unique_keys(s),
        0 <= i < s.len(),
    ensures
        lookup(s.update(i, (s[i].0, rec)), id) == if id == s[i].0 {
            Some(rec@)
        } else {
            lookup(s, id)
        },
{
    let s2 = s.update(i, (s[i].0, rec));
    lemma_idx_of_same_keys(s, s2, id);
    lemma_idx_of_props(s, id);
    let n = idx_of(s, id);
    if id == s[i].0 {
        lemma_idx_of_first(s, id, i);
    } else {
        if n >= 0 {
            assert(s2[n].1 == s[n].1);
        }
    }
}

proof fn lemma_lookup_push(s: Seq<(u128, JobRecord)>, id: u128, rec: JobRecord, j: u128)
    requires
        idx_of(s, id) == -1,
    ensures
        lookup(s.push((id, rec)), j) == if j == id {
            Some(rec@)
        } else {
            lookup(s, j)
        },
    decreases s.len(),
{
    let sp = s.push((id, rec));
    lemma_idx_of_props(s, id);
    if s.len() == 0 {
        assert(sp.len() == 1);
        if j != id {
            assert(idx_of(sp.drop_first(), j) == -1);
        }
    } else {
        assert(sp.drop_first() =~= s.drop_first().push((id, rec)));
        if s[0].0 != id {
            lemma_idx_of_props(s.drop_first(), id);
        }
        lemma_lookup_push(s.drop_first(), id, rec, j);
        lemma_idx_of_props(s, j);
        lemma_idx_of_props(sp, j);
        if j == s[0].0 {
        } else {
            assert forall|k: int| 1 <= k < s.len() implies s.drop_first()[k - 1] == s[k] by {}
        }
    }
}

// ------------------------------------------------------------------
// The store.
// ------------------------------------------------------------------

/// The in-memory job store.
pub struct LocalJobStore {
    jobs: Vec<(u128, JobRecord)>,
}

impl LocalJobStore {
    /// Keys are unique and every stored record is well formed.
    pub closed spec fn wf(&self) -> bool {
        &&& unique_keys(self.jobs@)
        &&& forall|k: int| 0 <= k < self.jobs@.len() ==> record_inv(#[trigger] self.jobs@[k].1@)
    }

    /// The record stored under `id`, if any.
    pub closed spec fn spec_lookup(&self, id: u128) -> Option<JobView> {
        lookup(self.jobs@, id)
    }

    /// The number of stored jobs.
    pub closed spec fn spec_len(&self) -> nat {
        self.jobs@.len()
    }

    pub fn new() -> (s: LocalJobStore)
        ensures
            s.wf(),
            s.spec_len() == 0,
            forall|j: u128| s.spec_lookup(j) is None,
    {
        let s = LocalJobStore { jobs: Vec::new() };
        proof {
            assert forall|j: u128| s.spec_lookup(j) is None by {
                lemma_idx_of_props(s.jobs@, j);
            }
        }
        s
    }

    fn find_index(&self, id: u128) -> (r: Option<usize>)
        ensures
            match r {
                Some(i) => i < self.jobs@.len() && idx_of(self.jobs@, id) == i,
                None => idx_of(self.jobs@, id) == -1,
            },
    {
        let ghost s = self.jobs@;
        let n = self.jobs.len();
        let mut i: usize = 0;
        while i < n
            invariant
                n == s.len(),
                i <= n,
                self.jobs@ == s,
                forall|k: int| 0 <= k < i ==> s[k].0 != id,
            decreases n - i,
        {
            if self.jobs[i].0 == id {
                proof {
                    lemma_idx_of_first(s, id, i as int);
                }
                return Some(i);
            }
            i = i + 1;
        }
        proof {
            lemma_idx_of_props(s, id);
        }
        None
    }

    /// Create a fresh queued record under `id`. An existing record under the
    /// same identifier is replaced, as the caller guarantees uniqueness.
    pub fn create_job(&mut self, id: u128, now: Clock)
        requires
            old(self).wf(),
        ensures
            final(self).wf(),
            final(self).spec_lookup(id) == Some(fresh_view(now)),
            forall|j: u128| j != id ==> final(self).spec_lookup(j) == old(self).spec_lookup(j),
    {
        let rec = JobRecord {
            stage: JobStage::Queued,
            stage_progress: 0,
            plan: Vec::new(),
            error: None,
            stage_eta_ms: None,
            started_mono_ms: now.mono_ms,
            last_update_mono_ms: now.mono_ms,
            started_wall_ms: now.wall_ms,
            last_update_wall_ms: now.wall_ms,
            stage_started_mono_ms: now.mono_ms,
        };
        proof {
            assert(rec@ == fresh_view(now));
        }
        match self.find_index(id) {
            Some(i) => {
                proof {
                    lemma_idx_of_props(self.jobs@, id);
                    lemma_lookup_update(self.jobs@, i as int, rec, id);
                    assert forall|j: u128| j != id implies lookup(
                        self.jobs@.update(i as int, (self.jobs@[i as int].0, rec)),
                        j,
                    ) == lookup(self.jobs@, j) by {
                        lemma_lookup_update(self.jobs@, i as int, rec, j);
                    }
                }
                let ghost olds = self.jobs@;
                self.jobs[i] = (id, rec);
                proof {
                    assert(self.jobs@ =~= olds.update(i as int, (olds[i as int].0, rec)));
                }
            }
            None => {
                proof {
                    let s = self.jobs@;
                    assert forall|j: u128| #[trigger] lookup(s.push((id, rec)), j) == (if j == id {
                        Some(rec@)
                    } else {
                        lookup(s, j)
                    }) by {
                        lemma_lookup_push(s, id, rec, j);
                    }
                    lemma_idx_of_props(s, id);
                }
                self.jobs.push((id, rec));
            }
        }
    }

    fn update_record(&mut self, id: u128, rec: JobRecord) -> (found: bool)
        requires
            old(self).wf(),
            record_inv(rec@),
        ensures
            final(self).wf(),
            found == (old(self).spec_lookup(id) is Some),
            final(self).spec_lookup(id) == if found {
                Some(rec@)
            } else {
                None::<JobView>
            },
            forall|j: u128| j != id ==> final(self).spec_lookup(j) == old(self).spec_lookup(j),
    {
        match self.find_index(id) {
            Some(i) => {
                proof {
                    lemma_idx_of_props(self.jobs@, id);
                    assert forall|j: u128| #[trigger] lookup(
                        self.jobs@.update(i as int, (self.jobs@[i as int].0, rec)),
                        j,
                    ) == (if j == id {
                        Some(rec@)
                    } else {
                        lookup(self.jobs@, j)
                    }) by {
                        lemma_lookup_update(self.jobs@, i as int, rec, j);
                    }
                }
                let ghost olds = self.jobs@;
                self.jobs[i] = (id, rec);
                proof {
                    assert(self.jobs@ =~= olds.update(i as int, (olds[i as int].0, rec)));
                }
                true
            }
            None => false,
        }
    }

    fn get_record(&self, id: u128) -> (r: Option<&JobRecord>)
        ensures
            match r {
                Some(rec) => self.spec_lookup(id) == Some(rec@) && (self.wf() ==> record_inv(
                    rec@,
                )),
                None => self.spec_lookup(id) is None,
            },
    {
        match self.find_index(id) {
            Some(i) => {
                proof {
                    lemma_idx_of_props(self.jobs@, id);
                }
                Some(&self.jobs[i].1)
            }
            None => None,
        }
    }

    /// Replace the plan of `id`; unknown identifiers are a no-op.
    pub fn set_plan(&mut self, id: u128, plan: Vec<JobStage>, now: Clock)
        requires
            old(self).wf(),
            plan@.len() <= u32::MAX,
        ensures
            final(self).wf(),
            final(self).spec_lookup(id) == match old(self).spec_lookup(id) {
                Some(r) => Some(with_plan(r, plan@, now)),
                None => None::<JobView>,
            },
            forall|j: u128| j != id ==> final(self).spec_lookup(j) == old(self).spec_lookup(j),
    {
        match self.get_record(id) {
            Some(rec) => {
                let new_rec = JobRecord {
                    plan,
                    last_update_mono_ms: now.mono_ms,
                    last_update_wall_ms: now.wall_ms,
                    stage: rec.stage,
                    stage_progress: rec.stage_progress,
                    error: clone_opt_string(&rec.error),
                    stage_eta_ms: rec.stage_eta_ms,
                    started_mono_ms: rec.started_mono_ms,
                    started_wall_ms: rec.started_wall_ms,
                    stage_started_mono_ms: rec.stage_started_mono_ms,
                };
                self.update_record(id, new_rec);
            }
            None => {}
        }
    }

    /// Enter `stage`: progress resets, the ETA is cleared, the stage clock
    /// restarts. Unknown identifiers are a no-op.
    pub fn update_stage(&mut self, id: u128, stage: JobStage, now: Clock)
        requires
            old(self).wf(),
        ensures
            final(self).wf(),
            final(self).spec_lookup(id) == match old(self).spec_lookup(id) {
                Some(r) => Some(with_stage(r, stage, now)),
                None => None::<JobView>,
            },
            forall|j: u128| j != id ==> final(self).spec_lookup(j) == old(self).spec_lookup(j),
    {
        match self.get_record(id) {
            Some(rec) => {
                let new_rec = JobRecord {
                    stage,
                    stage_progress: 0,
                    stage_eta_ms: None,
                    stage_started_mono_ms: now.mono_ms,
                    last_update_mono_ms: now.mono_ms,
                    last_update_wall_ms: now.wall_ms,
                    plan: clone_stages(&rec.plan),
                    error: clone_opt_string(&rec.error),
                    started_mono_ms: rec.started_mono_ms,
                    started_wall_ms: rec.started_wall_ms,
                };
                self.update_record(id, new_rec);
            }
            None => {}
        }
    }

    /// Store a progress report, clamped into `[0, RATIO_ONE]`. Unknown
    /// identifiers are a no-op.
    pub fn update_progress(&mut self, id: u128, raw: u32, now: Clock)
        requires
            old(self).wf(),
        ensures
            final(self).wf(),
            final(self).spec_lookup(id) == match old(self).spec_lookup(id) {
                Some(r) => Some(with_progress(r, raw, now)),
                None => None::<JobView>,
            },
            forall|j: u128| j != id ==> final(self).spec_lookup(j) == old(self).spec_lookup(j),
    {
        match self.get_record(id) {
            Some(rec) => {
                let new_rec = JobRecord {
                    stage_progress: clamp_ratio(raw),
                    last_update_mono_ms: now.mono_ms,
                    last_update_wall_ms: now.wall_ms,
                    stage: rec.stage,
                    plan: clone_stages(&rec.plan),
                    error: clone_opt_string(&rec.error),
                    stage_eta_ms: rec.stage_eta_ms,
                    started_mono_ms: rec.started_mono_ms,
                    started_wall_ms: rec.started_wall_ms,
                    stage_started_mono_ms: rec.stage_started_mono_ms,
                };
                self.update_record(id, new_rec);
            }
            None => {}
        }
    }

    /// Store or clear an externally supplied ETA. Unknown identifiers are a
    /// no-op.
    pub fn update_stage_eta(&mut self, id: u128, eta_ms: Option<u64>, now: Clock)
        requires
            old(self).wf(),
        ensures
            final(self).wf(),
            final(self).spec_lookup(id) == match old(self).spec_lookup(id) {
                Some(r) => Some(with_eta(r, eta_ms, now)),
                None => None::<JobView>,
            },
            forall|j: u128| j != id ==> final(self).spec_lookup(j) == old(self).spec_lookup(j),
    {
        match self.get_record(id) {
            Some(rec) => {
                let new_rec = JobRecord {
                    stage_eta_ms: eta_ms,
                    last_update_mono_ms: now.mono_ms,
                    last_update_wall_ms: now.wall_ms,
                    stage: rec.stage,
                    stage_progress: rec.stage_progress,
                    plan: clone_stages(&rec.plan),
                    error: clone_opt_string(&rec.error),
                    started_mono_ms: rec.started_mono_ms,
                    started_wall_ms: rec.started_wall_ms,
                    stage_started_mono_ms: rec.stage_started_mono_ms,
                };
                self.update_record(id, new_rec);
            }
            None => {}
        }
    }

    /// Mark `id` failed with a message. Unknown identifiers are a no-op.
    pub fn fail(&mut self, id: u128, message: String, now: Clock)
        requires
            old(self).wf(),
        ensures
            final(self).wf(),
            final(self).spec_lookup(id) == match old(self).spec_lookup(id) {
                Some(r) => Some(with_failure(r, message@, now)),
                None => None::<JobView>,
            },
            forall|j: u128| j != id ==> final(self).spec_lookup(j) == old(self).spec_lookup(j),
    {
        match self.get_record(id) {
            Some(rec) => {
                let new_rec = JobRecord {
                    stage: JobStage::Failed,
                    error: Some(message),
                    stage_eta_ms: None,
                    last_update_mono_ms: now.mono_ms,
                    last_update_wall_ms: now.wall_ms,
                    stage_progress: rec.stage_progress,
                    plan: clone_stages(&rec.plan),
                    started_mono_ms: rec.started_mono_ms,
                    started_wall_ms: rec.started_wall_ms,
                    stage_started_mono_ms: rec.stage_started_mono_ms,
                };
                self.update_record(id, new_rec);
            }
            None => {}
        }
    }

    /// Mark `id` complete: full progress and a zero ETA. Unknown identifiers
    /// are a no-op.
    pub fn complete(&mut self, id: u128, now: Clock)
        requires
            old(self).wf(),
        ensures
            final(self).wf(),
            final(self).spec_lookup(id) == match old(self).spec_lookup(id) {
                Some(r) => Some(with_completion(r, now)),
                None => None::<JobView>,
            },
            forall|j: u128| j != id ==> final(self).spec_lookup(j) == old(self).spec_lookup(j),
    {
        match self.get_record(id) {
            Some(rec) => {
                let new_rec = JobRecord {
                    stage: JobStage::Complete,
                    stage_progress: RATIO_ONE,
                    stage_eta_ms: Some(0),
                    last_update_mono_ms: now.mono_ms,
                    last_update_wall_ms: now.wall_ms,
                    plan: clone_stages(&rec.plan),
                    error: clone_opt_string(&rec.error),
                    started_mono_ms: rec.started_mono_ms,
                    started_wall_ms: rec.started_wall_ms,
                    stage_started_mono_ms: rec.stage_started_mono_ms,
                };
                self.update_record(id, new_rec);
            }
            None => {}
        }
    }
}

fn clone_opt_string(o: &Option<String>) -> (r: Option<String>)
    ensures
        match (o, &r) {
            (Some(a), Some(b)) => a@ == b@,
            (None, None) => true,
            _ => false,
        },
{
    match o {
        Some(s) => Some(s.clone()),
        None => None,
    }
}

fn clone_stages(v: &Vec<JobStage>) -> (r: Vec<JobStage>)
    ensures
        r@ == v@,
{
    let mut out: Vec<JobStage> = Vec::new();
    let n = v.len();
    let mut i: usize = 0;
    while i < n
        invariant
            n == v@.len(),
            i <= n,
            out@ == v@.subrange(0, i as int),
        decreases n - i,
    {
        out.push(v[i]);
        i = i + 1;
    }
    proof {
        assert(out@ =~= v@);
    }
    out
}

// ------------------------------------------------------------------
// Status snapshots.
// ------------------------------------------------------------------

/// Below this stage progress the ETA heuristic falls back to a baseline
/// guess (0.02 as parts-per-million).
pub const ETA_MIN_PROGRESS: u32 = 20_000;

/// The baseline ETA guess, in seconds (45 minutes).
pub const ETA_BASELINE_SECONDS: u64 = 2_700;

/// `a - b`, floored at zero.
pub open spec fn spec_sat_sub(a: int, b: int) -> int {
    if a >= b {
        a - b
    } else {
        0
    }
}

/// The larger of two integers.
pub open spec fn spec_max(a: int, b: int) -> int {
    if a >= b {
        a
    } else {
        b
    }
}

/// Index of the first occurrence of `stage` in `plan`, or -1.
pub open spec fn first_index(plan: Seq<JobStage>, stage: JobStage) -> int
    decreases plan.len(),
{
    if plan.len() == 0 {
        -1
    } else if plan[0] == stage {
        0
    } else {
        let r = first_index(plan.drop_first(), stage);
        if r < 0 {
            -1
        } else {
            r + 1
        }
    }
}

proof fn lemma_first_index_props(plan: Seq<JobStage>, stage: JobStage)
    ensures
        -1 <= first_index(plan, stage) < plan.len(),
        first_index(plan, stage) >= 0 ==> plan[first_index(plan, stage)] == stage,
        first_index(plan, stage) == -1 ==> forall|k: int| 0 <= k < plan.len() ==> plan[k] != stage,
        forall|k: int| 0 <= k < first_index(plan, stage) ==> plan[k] != stage,
    decreases plan.len(),
{
    if plan.len() > 0 && plan[0] != stage {
        lemma_first_index_props(plan.drop_first(), stage);
        assert forall|k: int| 1 <= k < plan.len() implies plan.drop_first()[k - 1] == plan[k] by {}
    }
}

proof fn lemma_first_index_at(plan: Seq<JobStage>, stage: JobStage, i: int)
    requires
        0 <= i < plan.len(),
        plan[i] == stage,
        forall|k: int| 0 <= k < i ==> plan[k] != stage,
    ensures
        first_index(plan, stage) == i,
    decreases plan.len(),
{
    if i > 0 {
        assert(plan[0] != stage);
        assert forall|k: int| 1 <= k < plan.len() implies plan.drop_first()[k - 1] == plan[k] by {}
        lemma_first_index_at(plan.drop_first(), stage, i - 1);
    }
}

/// The overall progress a client sees, in parts-per-million.
///
/// When the plan is non-empty and the current stage is its `i`-th entry, the
/// overall progress is `(i + stage_progress) / plan length` in fixed point;
/// a complete job is one; a failed job keeps the stage progress; a stage
/// outside the plan uses a stage-specific heuristic.
pub open spec fn spec_overall(stage: JobStage, plan: Seq<JobStage>, p: u32) -> int {
    if stage == JobStage::Complete {
        RATIO_ONE as int
    } else if plan.len() == 0 {
        p as int
    } else {
        let n = plan.len() as int;
        let i = first_index(plan, stage);
        if i >= 0 {
            (i * (RATIO_ONE as int) + p) / n
        } else {
            match stage {
                JobStage::Failed => p as int,
                JobStage::Queued => 0,
                JobStage::Uploading => (p as int) / n,
                JobStage::Downloading => (p as int) / n,
                JobStage::Transcoding => (p as int) / n,
                JobStage::Finalizing => ((n - 1) * (RATIO_ONE as int) + p) / n,
                JobStage::Complete => RATIO_ONE as int,
            }
        }
    }
}

/// The stage progress a client sees: full for a complete job, the stored
/// value otherwise.
pub open spec fn spec_stage_progress(stage: JobStage, p: u32) -> u32 {
    if stage == JobStage::Complete {
        RATIO_ONE
    } else {
        p
    }
}

/// The 1-based position of the current stage in the plan, if any; a complete
/// job reports the plan length.
pub open spec fn spec_stage_index(stage: JobStage, plan: Seq<JobStage>) -> Option<u32> {
    if stage == JobStage::Complete {
        Some(plan.len() as u32)
    } else if plan.len() == 0 {
        None
    } else {
        let i = first_index(plan, stage);
        if i >= 0 {
            Some((i + 1) as u32)
        } else {
            None
        }
    }
}

/// The remaining-time estimate, in seconds. A complete job owes zero; a
/// stored external ETA wins; with hardly any progress the estimate is
/// `max(45 minutes, 6 times the stage's elapsed time)`; otherwise the stage
/// elapsed time is extrapolated linearly through the progress ratio.
pub open spec fn spec_eta_seconds(r: JobView, now_mono_ms: u64) -> Option<u64> {
    if r.stage == JobStage::Complete {
        Some(0u64)
    } else if r.stage_eta_ms is Some {
        Some(((r.stage_eta_ms->0) / 1000) as u64)
    } else {
        let elapsed_s = spec_sat_sub(now_mono_ms as int, r.stage_started_mono_ms as int) / 1000;
        if r.stage_progress < ETA_MIN_PROGRESS {
            Some(spec_max(ETA_BASELINE_SECONDS as int, spec_max(elapsed_s, 1) * 6) as u64)
        } else {
            let total = elapsed_s * (RATIO_ONE as int) / (r.stage_progress as int);
            Some(spec_sat_sub(total, elapsed_s) as u64)
        }
    }
}

/// The mathematical value of a status snapshot.
pub ghost struct StatusView {
    pub id: u128,
    pub stage: JobStage,
    pub progress: u32,
    pub stage_progress: u32,
    pub current_stage_index: Option<u32>,
    pub total_stages: u32,
    pub elapsed_ms: u64,
    pub estimated_remaining_seconds: Option<u64>,
    pub error: Option<Seq<char>>,
    pub started_at_unix_ms: u64,
    pub last_update_unix_ms: u64,
}

/// What a status snapshot holds for a record `r` observed at `now`.
pub open spec fn spec_snapshot(id: u128, r: JobView, now: Clock) -> StatusView {
    StatusView {
        id,
        stage: r.stage,
        progress: spec_overall(r.stage, r.plan, r.stage_progress) as u32,
        stage_progress: spec_stage_progress(r.stage, r.stage_progress),
        current_stage_index: spec_stage_index(r.stage, r.plan),
        total_stages: r.plan.len() as u32,
        elapsed_ms: spec_sat_sub(r.last_update_mono_ms as int, r.started_mono_ms as int) as u64,
        estimated_remaining_seconds: spec_eta_seconds(r, now.mono_ms),
        error: r.error,
        started_at_unix_ms: r.started_wall_ms,
        last_update_unix_ms: r.last_update_wall_ms,
    }
}

/// The client-visible status of one job. Ratios are parts-per-million and
/// times are milliseconds.
#[derive(Debug)]
pub struct JobStatusResponse {
    pub id: u128,
    pub stage: JobStage,
    pub progress: u32,
    pub stage_progress: u32,
    pub current_stage_index: Option<u32>,
    pub total_stages: u32,
    pub elapsed_ms: u64,
    pub estimated_remaining_seconds: Option<u64>,
    pub error: Option<String>,
    pub started_at_unix_ms: u64,
    pub last_update_unix_ms: u64,
}

impl View for JobStatusResponse {
    type V = StatusView;

    open spec fn view(&self) -> StatusView {
        StatusView {
            id: self.id,
            stage: self.stage,
            progress: self.progress,
            stage_progress: self.stage_progress,
            current_stage_index: self.current_stage_index,
            total_stages: self.total_stages,
            elapsed_ms: self.elapsed_ms,
            estimated_remaining_seconds: self.estimated_remaining_seconds,
            error: match self.error {
                Some(e) => Some(e@),
                None => None,
            },
            started_at_unix_ms: self.started_at_unix_ms,
            last_update_unix_ms: self.last_update_unix_ms,
        }
    }
}

/// For a job whose plan holds the current stage at 0-based index `i`, the
/// overall progress is exactly `(i + stage_progress) / plan length` in
/// fixed point.
pub proof fn lemma_overall_in_plan(stage: JobStage, plan: Seq<JobStage>, p: u32)
    requires
        stage != JobStage::Complete,
        first_index(plan, stage) >= 0,
    ensures
        spec_overall(stage, plan, p) == (first_index(plan, stage) * (RATIO_ONE as int) + p) / (
        plan.len() as int),
{
    lemma_first_index_props(plan, stage);
}

/// A complete job reports full overall and stage progress and a zero ETA.
pub proof fn lemma_complete_snapshot(id: u128, r: JobView, now: Clock)
    requires
        r.stage == JobStage::Complete,
    ensures
        spec_snapshot(id, r, now).progress == RATIO_ONE,
        spec_snapshot(id, r, now).stage_progress == RATIO_ONE,
        spec_snapshot(id, r, now).estimated_remaining_seconds == Some(0u64),
{
}

/// Overall progress never leaves `[0, RATIO_ONE]` for a well-formed record.
pub proof fn lemma_overall_bounded(stage: JobStage, plan: Seq<JobStage>, p: u32)
    requires
        p <= RATIO_ONE,
    ensures
        0 <= spec_overall(stage, plan, p) <= RATIO_ONE,
{
    let one = RATIO_ONE as int;
    if stage == JobStage::Complete {
    } else if plan.len() == 0 {
    } else {
        let n = plan.len() as int;
        let i = first_index(plan, stage);
        lemma_first_index_props(plan, stage);
        if i >= 0 {
            vstd::arithmetic::mul::lemma_mul_inequality(i, n - 1, one);
            assert(i * one + p <= (n - 1) * one + one);
            assert((n - 1) * one + one == n * one) by (nonlinear_arith);
            vstd::arithmetic::div_mod::lemma_div_is_ordered(i * one + p, n * one, n);
            vstd::arithmetic::div_mod::lemma_div_multiples_vanish(one, n);
            vstd::arithmetic::div_mod::lemma_div_pos_is_pos(i * one + p, n);
        } else {
            match stage {
                JobStage::Failed => {}
                JobStage::Queued => {}
                JobStage::Complete => {}
                JobStage::Finalizing => {
                    vstd::arithmetic::mul::lemma_mul_inequality(n - 1, n - 1, one);
                    assert((n - 1) * one + one == n * one) by (nonlinear_arith);
                    vstd::arithmetic::div_mod::lemma_div_is_ordered((n - 1) * one + p, n * one, n);
                    vstd::arithmetic::div_mod::lemma_div_multiples_vanish(one, n);
                    vstd::arithmetic::div_mod::lemma_div_pos_is_pos((n - 1) * one + p, n);
                }
                _ => {
                    vstd::arithmetic::div_mod::lemma_div_is_ordered_by_denominator(p as int, 1, n);
                    vstd::arithmetic::div_mod::lemma_div_pos_is_pos(p as int, n);
                }
            }
        }
    }
}

impl LocalJobStore {
    fn first_stage_index(plan: &Vec<JobStage>, stage: JobStage) -> (r: Option<usize>)
        ensures
            match r {
                Some(i) => i < plan@.len() && first_index(plan@, stage) == i,
                None => first_index(plan@, stage) == -1,
            },
    {
        let n = plan.len();
        let mut i: usize = 0;
        while i < n
            invariant
                n == plan@.len(),
                i <= n,
                forall|k: int| 0 <= k < i ==> plan@[k] != stage,
            decreases n - i,
        {
            if plan[i] == stage {
                proof {
                    lemma_first_index_at(plan@, stage, i as int);
                }
                return Some(i);
            }
            i = i + 1;
        }
        proof {
            lemma_first_index_props(plan@, stage);
        }
        None
    }

    fn overall_of(rec: &JobRecord) -> (overall: u32)
        requires
            record_inv(rec@),
        ensures
            overall == spec_overall(rec@.stage, rec@.plan, rec@.stage_progress),
            overall <= RATIO_ONE,
    {
        proof {
            lemma_overall_bounded(rec@.stage, rec@.plan, rec@.stage_progress);
        }
        if rec.stage == JobStage::Complete {
            return RATIO_ONE;
        }
        let n = rec.plan.len();
        if n == 0 {
            return rec.stage_progress;
        }
        match Self::first_stage_index(&rec.plan, rec.stage) {
            Some(i) => {
                proof {
                    assert(i < n <= u32::MAX);
                }
                let num: u64 = (i as u64) * (RATIO_ONE as u64) + (rec.stage_progress as u64);
                (num / (n as u64)) as u32
            }
            None => {
                match rec.stage {
                    JobStage::Failed => rec.stage_progress,
                    JobStage::Queued => 0,
                    JobStage::Complete => RATIO_ONE,
                    JobStage::Finalizing => {
                        let num: u64 = ((n - 1) as u64) * (RATIO_ONE as u64) + (
                        rec.stage_progress as u64);
                        (num / (n as u64)) as u32
                    }
                    _ => ((rec.stage_progress as u64) / (n as u64)) as u32,
                }
            }
        }
    }

    fn eta_seconds_of(rec: &JobRecord, now_mono_ms: u64) -> (r: Option<u64>)
        requires
            record_inv(rec@),
        ensures
            r == spec_eta_seconds(rec@, now_mono_ms),
    {
        if rec.stage == JobStage::Complete {
            return Some(0);
        }
        match rec.stage_eta_ms {
            Some(eta_ms) => Some(eta_ms / 1000),
            None => {
                let elapsed_ms: u64 = if now_mono_ms >= rec.stage_started_mono_ms {
                    now_mono_ms - rec.stage_started_mono_ms
                } else {
                    0
                };
                let elapsed_s: u64 = elapsed_ms / 1000;
                if rec.stage_progress < ETA_MIN_PROGRESS {
                    let grown: u64 = if elapsed_s >= 1 {
                        elapsed_s * 6
                    } else {
                        6
                    };
                    if ETA_BASELINE_SECONDS >= grown {
                        Some(ETA_BASELINE_SECONDS)
                    } else {
                        Some(grown)
                    }
                } else {
                    let p = rec.stage_progress;
                    let total_u128: u128 = (elapsed_s as u128) * (RATIO_ONE as u128) / (p as u128);
                    proof {
                        let e = elapsed_s as int;
                        let one = RATIO_ONE as int;
                        vstd::arithmetic::div_mod::lemma_div_is_ordered_by_denominator(
                            e * one,
                            ETA_MIN_PROGRESS as int,
                            p as int,
                        );
                        assert(e * 1_000_000 == (e * 50) * 20_000) by (nonlinear_arith);
                        assert(e * one == (e * 50) * (ETA_MIN_PROGRESS as int));
                        vstd::arithmetic::div_mod::lemma_div_by_multiple(
                            e * 50,
                            ETA_MIN_PROGRESS as int,
                        );
                        assert(e * 50 <= 0xFFFF_FFFF_FFFF_FFFF) by (nonlinear_arith)
                            requires
                                0 <= e <= 0xFFFF_FFFF_FFFF_FFFFu64 / 1000,
                        ;
                        vstd::arithmetic::div_mod::lemma_div_pos_is_pos(e * one, p as int);
                    }
                    let total: u64 = total_u128 as u64;
                    let remaining: u64 = if total >= elapsed_s {
                        total - elapsed_s
                    } else {
                        0
                    };
                    Some(remaining)
                }
            }
        }
    }

    /// Build the client-visible snapshot of one record.
    ///
    /// The ensured clauses carry the progress laws: both ratios stay inside
    /// `[0, RATIO_ONE]`; when the current stage is the `i`-th entry of a
    /// non-empty plan the overall progress is exactly
    /// `(i * RATIO_ONE + stage_progress) / plan length`; and a complete job
    /// reports full progress with a zero ETA.
    pub fn snapshot_of(id: u128, rec: &JobRecord, now: Clock) -> (resp: JobStatusResponse)
        requires
            record_inv(rec@),
        ensures
            resp@ == spec_snapshot(id, rec@, now),
            resp.progress <= RATIO_ONE,
            resp.stage_progress <= RATIO_ONE,
            rec@.stage != JobStage::Complete && first_index(rec@.plan, rec@.stage) >= 0
                ==> resp.progress as int == (first_index(rec@.plan, rec@.stage) * (
            RATIO_ONE as int) + rec@.stage_progress) / (rec@.plan.len() as int),
            rec@.stage == JobStage::Complete ==> resp.progress == RATIO_ONE
                && resp.stage_progress == RATIO_ONE && resp.estimated_remaining_seconds == Some(
            0u64),
    {
        proof {
            lemma_overall_bounded(rec@.stage, rec@.plan, rec@.stage_progress);
            lemma_first_index_props(rec@.plan, rec@.stage);
        }
        let overall = Self::overall_of(rec);
        let stage_progress = if rec.stage == JobStage::Complete {
            RATIO_ONE
        } else {
            rec.stage_progress
        };
        let current_stage_index: Option<u32> = if rec.stage == JobStage::Complete {
            Some(rec.plan.len() as u32)
        } else if rec.plan.len() == 0 {
            None
        } else {
            match Self::first_stage_index(&rec.plan, rec.stage) {
                Some(i) => Some((i + 1) as u32),
                None => None,
            }
        };
        let elapsed_ms: u64 = if rec.last_update_mono_ms >= rec.started_mono_ms {
            rec.last_update_mono_ms - rec.started_mono_ms
        } else {
            0
        };
        let eta = Self::eta_seconds_of(rec, now.mono_ms);
        JobStatusResponse {
            id,
            stage: rec.stage,
            progress: overall,
            stage_progress,
            current_stage_index,
            total_stages: rec.plan.len() as u32,
            elapsed_ms,
            estimated_remaining_seconds: eta,
            error: clone_opt_string(&rec.error),
            started_at_unix_ms: rec.started_wall_ms,
            last_update_unix_ms: rec.last_update_wall_ms,
        }
    }

    /// The snapshot of `id` at `now`, or `None` for an unknown identifier.
    pub fn status(&self, id: u128, now: Clock) -> (r: Option<JobStatusResponse>)
        requires
            self.wf(),
        ensures
            match r {
                Some(resp) => self.spec_lookup(id) matches Some(v) && resp@ == spec_snapshot(
                    id,
                    v,
                    now,
                ) && resp.progress <= RATIO_ONE && resp.stage_progress <= RATIO_ONE,
                None => self.spec_lookup(id) is None,
            },
    {
        match self.get_record(id) {
            Some(rec) => Some(Self::snapshot_of(id, rec, now)),
            None => None,
        }
    }

    /// Snapshots of every stored job, in store order.
    pub fn list(&self, now: Clock) -> (r: Vec<JobStatusResponse>)
        requires
            self.wf(),
        ensures
            r@.len() == self.spec_len(),
            forall|k: int| 0 <= k < r@.len() ==> (#[trigger] r@[k]@) == spec_snapshot(
                self.entry_id(k),
                self.entry_view(k),
                now,
            ),
    {
        let n = self.jobs.len();
        let mut out: Vec<JobStatusResponse> = Vec::new();
        let mut i: usize = 0;
        while i < n
            invariant
                self.wf(),
                n == self.jobs@.len(),
                i <= n,
                out@.len() == i,
                forall|k: int| 0 <= k < i ==> (#[trigger] out@[k]@) == spec_snapshot(
                    self.entry_id(k),
                    self.entry_view(k),
                    now,
                ),
            decreases n - i,
        {
            let entry = &self.jobs[i];
            let resp = Self::snapshot_of(entry.0, &entry.1, now);
            out.push(resp);
            i = i + 1;
        }
        out
    }

    /// The identifier of the `k`-th stored entry.
    pub closed spec fn entry_id(&self, k: int) -> u128 {
        self.jobs@[k].0
    }

    /// The record of the `k`-th stored entry.
    pub closed spec fn entry_view(&self, k: int) -> JobView {
        self.jobs@[k].1@
    }
}

/// Milliseconds represented by a duration of `secs` seconds plus
/// `subsec_nanos` nanoseconds.
pub fn millis_since_epoch(secs: u64, subsec_nanos: u32) -> (ms: u128)
    ensures
        ms == secs * 1000 + subsec_nanos / 1_000_000,
{
    (secs as u128) * 1000 + (subsec_nanos as u128) / 1_000_000
}

} // verus!
