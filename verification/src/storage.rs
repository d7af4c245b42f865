//! The storage layout: deterministic path construction for every per-job
//! artifact, and the pruning decision for derived outputs.
//!
//! Paths are plain strings here; the filesystem work happens outside the
//! library, against exactly these paths.

use vstd::prelude::*;
use vstd::string::StringExecFns;

use crate::ids::{spec_hyphenated, spec_simple, JobId};

verus! {

/// `a` is a prefix of `b`.
pub open spec fn prefix_of(a: Seq<char>, b: Seq<char>) -> bool {
    a.len() <= b.len() && b.subrange(0, a.len() as int) == a
}

/// `p` lies in the tree rooted at `d`: it is `d` itself or begins with
/// `d` followed by a slash.
pub open spec fn spec_descends(p: Seq<char>, d: Seq<char>) -> bool {
    p == d || prefix_of(d + seq!['/'], p)
}

/// The progressive file of a job.
pub open spec fn spec_download_path(root: Seq<char>, id: u128) -> Seq<char> {
    root + "/videos/"@ + spec_hyphenated(id) + "/download.webm"@
}

/// The per-job video directory.
pub open spec fn spec_video_dir(root: Seq<char>, id: u128) -> Seq<char> {
    root + "/videos/"@ + spec_hyphenated(id)
}

/// The per-job HLS output directory.
pub open spec fn spec_hls_dir(tmp: Seq<char>, id: u128) -> Seq<char> {
    tmp + "/hls/"@ + spec_hyphenated(id)
}

/// The per-job DASH output directory.
pub open spec fn spec_dash_dir(tmp: Seq<char>, id: u128) -> Seq<char> {
    tmp + "/dash/"@ + spec_hyphenated(id)
}

/// The partial upload or download of a job.
pub open spec fn spec_incoming_path(tmp: Seq<char>, id: u128) -> Seq<char> {
    tmp + "/incoming/"@ + spec_simple(id) + ".incoming"@
}

/// The deterministic storage layout over a root and a temporary directory.
pub struct Storage {
    root_dir: String,
    tmp_root: String,
}

impl Storage {
    /// The configured storage root.
    pub closed spec fn spec_root(&self) -> Seq<char> {
        self.root_dir@
    }

    /// The temporary tree that holds incoming files and derived outputs.
    pub closed spec fn spec_tmp(&self) -> Seq<char> {
        self.tmp_root@
    }

    /// Lay out storage under `root`, with temporaries under the service's
    /// subdirectory of `tmp_parent`.
    pub fn new(root: &str, tmp_parent: &str) -> (s: Storage)
        ensures
            s.spec_root() == root@,
            s.spec_tmp() == tmp_parent@ + "/vrs"@,
    {
        let mut tmp = String::from_str(tmp_parent);
        tmp.append("/vrs");
        Storage { root_dir: String::from_str(root), tmp_root: tmp }
    }

    /// The storage root.
    pub fn root_dir(&self) -> (r: String)
        ensures
            r@ == self.spec_root(),
    {
        self.root_dir.clone()
    }

    /// The temporary tree.
    pub fn tmp_dir(&self) -> (r: String)
        ensures
            r@ == self.spec_tmp(),
    {
        self.tmp_root.clone()
    }

    /// The cache directory for tool binaries.
    pub fn libs_dir(&self) -> (r: String)
        ensures
            r@ == self.spec_root() + "/libs"@,
    {
        let mut r = self.root_dir.clone();
        r.append("/libs");
        r
    }

    /// The directory that holds every job's progressive output.
    pub fn videos_dir(&self) -> (r: String)
        ensures
            r@ == self.spec_root() + "/videos"@,
    {
        let mut r = self.root_dir.clone();
        r.append("/videos");
        r
    }

    /// The video directory of one job.
    pub fn video_dir(&self, id: &JobId) -> (r: String)
        ensures
            r@ == spec_video_dir(self.spec_root(), id.value),
    {
        let mut r = self.root_dir.clone();
        r.append("/videos/");
        let h = id.hyphenated();
        r.append(h.as_str());
        proof {
            assert(r@ =~= spec_video_dir(self.spec_root(), id.value));
        }
        r
    }

    /// The progressive file of one job.
    pub fn download_path(&self, id: &JobId) -> (r: String)
        ensures
            r@ == spec_download_path(self.spec_root(), id.value),
    {
        let mut r = self.video_dir(id);
        r.append("/download.webm");
        proof {
            assert(r@ =~= spec_download_path(self.spec_root(), id.value));
        }
        r
    }

    /// The partial upload or download of one job.
    pub fn incoming_path(&self, id: &JobId) -> (r: String)
        ensures
            r@ == spec_incoming_path(self.spec_tmp(), id.value),
    {
        let mut r = self.tmp_root.clone();
        r.append("/incoming/");
        let s = id.simple();
        r.append(s.as_str());
        r.append(".incoming");
        proof {
            assert(r@ =~= spec_incoming_path(self.spec_tmp(), id.value));
        }
        r
    }

    /// The HLS output directory of one job.
    pub fn hls_dir(&self, id: &JobId) -> (r: String)
        ensures
            r@ == spec_hls_dir(self.spec_tmp(), id.value),
    {
        let mut r = self.tmp_root.clone();
        r.append("/hls/");
        let h = id.hyphenated();
        r.append(h.as_str());
        proof {
            assert(r@ =~= spec_hls_dir(self.spec_tmp(), id.value));
        }
        r
    }

    /// The DASH output directory of one job.
    pub fn dash_dir(&self, id: &JobId) -> (r: String)
        ensures
            r@ == spec_dash_dir(self.spec_tmp(), id.value),
    {
        let mut r = self.tmp_root.clone();
        r.append("/dash/");
        let h = id.hyphenated();
        r.append(h.as_str());
        proof {
            assert(r@ =~= spec_dash_dir(self.spec_tmp(), id.value));
        }
        r
    }
}

proof fn lemma_common_prefix(a: Seq<char>, b: Seq<char>, c: Seq<char>)
    requires
        prefix_of(a, c),
        prefix_of(b, c),
        a.len() <= b.len(),
    ensures
        prefix_of(a, b),
{
    assert forall|i: int| 0 <= i < a.len() implies b[i] == a[i] by {
        assert(c.subrange(0, a.len() as int)[i] == a[i]);
        assert(c.subrange(0, b.len() as int)[i] == b[i]);
    }
    assert(b.subrange(0, a.len() as int) =~= a);
}

proof fn lemma_tree_prefix(p: Seq<char>, root: Seq<char>, tmp: Seq<char>)
    requires
        prefix_of(root + seq!['/'], p),
        prefix_of(tmp + seq!['/'], p),
    ensures
        spec_descends(root, tmp) || spec_descends(tmp, root),
{
    let ra = root + seq!['/'];
    let ta = tmp + seq!['/'];
    if root.len() == tmp.len() {
        lemma_common_prefix(ra, ta, p);
        assert forall|i: int| 0 <= i < root.len() implies root[i] == tmp[i] by {
            assert(ta.subrange(0, ra.len() as int)[i] == ra[i]);
        }
        assert(root =~= tmp);
        assert(spec_descends(root, tmp));
    } else if root.len() < tmp.len() {
        lemma_common_prefix(ra, ta, p);
        assert(prefix_of(ra, tmp)) by {
            assert forall|i: int| 0 <= i < ra.len() implies tmp[i] == ra[i] by {
                assert(ta.subrange(0, ra.len() as int)[i] == ra[i]);
                assert(ta[i] == tmp[i]);
            }
            assert(tmp.subrange(0, ra.len() as int) =~= ra);
        }
        assert(spec_descends(tmp, root));
    } else {
        lemma_common_prefix(ta, ra, p);
        assert(prefix_of(ta, root)) by {
            assert forall|i: int| 0 <= i < ta.len() implies root[i] == ta[i] by {
                assert(ra.subrange(0, ta.len() as int)[i] == ta[i]);
                assert(ra[i] == root[i]);
            }
            assert(root.subrange(0, ta.len() as int) =~= ta);
        }
        assert(spec_descends(root, tmp));
    }
}

/// Pruning a job's derived artifacts removes only the HLS and DASH trees,
/// and the progressive file stands in neither: as long as the storage root
/// and the temporary tree do not contain one another, deleting those trees
/// can never delete `download.webm`.
pub proof fn lemma_prune_spares_progressive(s: &Storage, id: u128)
    requires
        !spec_descends(s.spec_root(), s.spec_tmp()),
        !spec_descends(s.spec_tmp(), s.spec_root()),
    ensures
        !spec_descends(spec_download_path(s.spec_root(), id), spec_hls_dir(s.spec_tmp(), id)),
        !spec_descends(spec_download_path(s.spec_root(), id), spec_dash_dir(s.spec_tmp(), id)),
{
    reveal_strlit("/videos/");
    reveal_strlit("/hls/");
    reveal_strlit("/dash/");
    reveal_strlit("/download.webm");
    let root = s.spec_root();
    let tmp = s.spec_tmp();
    let dl = spec_download_path(root, id);
    let hls = spec_hls_dir(tmp, id);
    let dash = spec_dash_dir(tmp, id);
    assert(prefix_of(root + seq!['/'], dl)) by {
        assert(dl.subrange(0, (root.len() + 1) as int) =~= root + seq!['/']);
    }
    if spec_descends(dl, hls) {
        assert(prefix_of(tmp + seq!['/'], dl)) by {
            if dl == hls {
                assert(dl.subrange(0, (tmp.len() + 1) as int) =~= tmp + seq!['/']);
            } else {
                assert(prefix_of(hls + seq!['/'], dl));
                assert forall|i: int| 0 <= i < (tmp.len() + 1) as int implies dl[i] == (tmp
                    + seq!['/'])[i] by {
                    assert(dl.subrange(0, (hls.len() + 1) as int)[i] == (hls + seq!['/'])[i]);
                }
                assert(dl.subrange(0, (tmp.len() + 1) as int) =~= tmp + seq!['/']);
            }
        }
        lemma_tree_prefix(dl, root, tmp);
    }
    if spec_descends(dl, dash) {
        assert(prefix_of(tmp + seq!['/'], dl)) by {
            if dl == dash {
                assert(dl.subrange(0, (tmp.len() + 1) as int) =~= tmp + seq!['/']);
            } else {
                assert(prefix_of(dash + seq!['/'], dl));
                assert forall|i: int| 0 <= i < (tmp.len() + 1) as int implies dl[i] == (tmp
                    + seq!['/'])[i] by {
                    assert(dl.subrange(0, (dash.len() + 1) as int)[i] == (dash + seq!['/'])[i]);
                }
                assert(dl.subrange(0, (tmp.len() + 1) as int) =~= tmp + seq!['/']);
            }
        }
        lemma_tree_prefix(dl, root, tmp);
    }
}

// ------------------------------------------------------------------
// Pruning decision.
// ------------------------------------------------------------------

/// What a prune of one job's derived artifacts does.
#[derive(Clone, Copy, Debug, PartialEq, Eq, Structural)]
pub struct PruneOutcome {
    /// Remove the HLS tree.
    pub remove_hls: bool,
    /// Remove the DASH tree.
    pub remove_dash: bool,
    /// Whether anything was pruned.
    pub pruned: bool,
}

/// Whether a prune removes anything, given which trees exist.
pub open spec fn spec_pruned(hls_exists: bool, dash_exists: bool) -> bool {
    hls_exists || dash_exists
}

/// Decide a prune: each existing derived tree is removed; the call counts
/// as a prune exactly when either tree existed.
pub fn prune_decision(hls_exists: bool, dash_exists: bool) -> (r: PruneOutcome)
    ensures
        r.remove_hls == hls_exists,
        r.remove_dash == dash_exists,
        r.pruned == spec_pruned(hls_exists, dash_exists),
{
    PruneOutcome { remove_hls: hls_exists, remove_dash: dash_exists, pruned: hls_exists
        || dash_exists }
}

/// After a successful prune both derived trees are gone, so a second prune
/// of the same job reports that nothing was pruned.
pub proof fn lemma_prune_idempotent()
    ensures
        !spec_pruned(false, false),
{
}

} // verus!
