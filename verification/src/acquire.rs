//! The source acquirer's logic: routing a submitted URL to the right
//! download path, the exact downloader argument lists, and the decisions
//! around the downloader tools' outputs.

use vstd::prelude::*;
use vstd::string::StringExecFns;
use vstd::string::StringSliceAdditionalSpecFns;

use crate::encoder::strs;
use crate::monitor::spec_segments;
use crate::textscan::{
    ends_with_bytes, lower_bytes, match_at, spec_lower_bytes, starts_with_bytes, str_starts_with,
};

verus! {

// ------------------------------------------------------------------
// URL routing.
// ------------------------------------------------------------------

/// The URL is a magnet link or names a torrent file (case-insensitively).
pub open spec fn spec_magnet_or_torrent(url_bytes: Seq<u8>) -> bool {
    ||| ("magnet:".spec_bytes().len() <= url_bytes.len() && match_at(
        url_bytes,
        "magnet:".spec_bytes(),
        0,
    ))
    ||| {
        let lower = spec_lower_bytes(url_bytes);
        let sfx = ".torrent".spec_bytes();
        sfx.len() <= lower.len() && match_at(lower, sfx, lower.len() - sfx.len())
    }
}

/// A scheme that the torrent downloader handles.
pub open spec fn spec_p2p_scheme(s: Seq<char>) -> bool {
    s == "ftp"@ || s == "ftps"@ || s == "p2p"@
}

/// Whether the torrent downloader takes this source: magnet links, torrent
/// files, and the ftp, ftps and p2p schemes.
pub fn should_use_aria2(url: &str, scheme: Option<&String>) -> (r: bool)
    ensures
        r == (spec_magnet_or_torrent(url.spec_bytes()) || (scheme matches Some(s)
            && spec_p2p_scheme(s@))),
{
    if str_starts_with(url, "magnet:") {
        return true;
    }
    let lower = lower_bytes(url.as_bytes());
    if ends_with_bytes(lower.as_slice(), ".torrent".as_bytes()) {
        return true;
    }
    match scheme {
        Some(s) => {
            *s == String::from_str("ftp") || *s == String::from_str("ftps") || *s
                == String::from_str("p2p")
        },
        None => false,
    }
}

/// What URL parsing yields for a string: the scheme of the absolute URL, or
/// nothing when the string is no URL. Parsing depends on the string alone.
pub uninterp spec fn url_scheme_of(s: Seq<char>) -> Option<Seq<char>>;

/// Relies on `url::Url::parse` and `url::Url::scheme`: parsing is a pure
/// function of the input string, and on success the scheme accessor
/// returns the parsed scheme.
#[verifier::external_body]
pub(crate) fn parse_url_scheme(s: &str) -> (r: Option<String>)
    ensures
        match r {
            Some(sch) => url_scheme_of(s@) == Some(sch@),
            None => url_scheme_of(s@) is None,
        },
{
    match url::Url::parse(s) {
        Ok(u) => Some(u.scheme().to_string()),
        Err(_) => None,
    }
}

/// Where a submitted source URL is routed.
#[derive(Clone, Copy, Debug, PartialEq, Eq, Structural)]
pub enum AcquireRoute {
    /// The torrent downloader.
    Aria2,
    /// A plain HTTP(S) fetch.
    Http,
    /// The string does not parse as a URL: a validation error.
    InvalidUrl,
}

/// Route a submitted URL: magnet links and torrent files go to the torrent
/// downloader without parsing; everything else must parse as a URL, whose
/// scheme then picks the torrent downloader (ftp, ftps, p2p) or HTTP.
pub fn classify_source(url: &str) -> (r: AcquireRoute)
    ensures
        spec_magnet_or_torrent(url.spec_bytes()) ==> r == AcquireRoute::Aria2,
        !spec_magnet_or_torrent(url.spec_bytes()) ==> match url_scheme_of(url@) {
            None => r == AcquireRoute::InvalidUrl,
            Some(s) => r == if spec_p2p_scheme(s) {
                AcquireRoute::Aria2
            } else {
                AcquireRoute::Http
            },
        },
{
    if str_starts_with(url, "magnet:") {
        return AcquireRoute::Aria2;
    }
    let lower = lower_bytes(url.as_bytes());
    if ends_with_bytes(lower.as_slice(), ".torrent".as_bytes()) {
        return AcquireRoute::Aria2;
    }
    match parse_url_scheme(url) {
        None => AcquireRoute::InvalidUrl,
        Some(sch) => {
            if sch == String::from_str("ftp") || sch == String::from_str("ftps") || sch
                == String::from_str("p2p") {
                AcquireRoute::Aria2
            } else {
                AcquireRoute::Http
            }
        },
    }
}

// ------------------------------------------------------------------
// Downloader argument lists.
// ------------------------------------------------------------------

/// The exact torrent-downloader invocation: the fixed no-seed flags, the
/// destination directory, the output name only for plain fetches, then the
/// source.
pub open spec fn spec_aria2_args(
    source: Seq<char>,
    dir: Seq<char>,
    out_name: Option<Seq<char>>,
) -> Seq<Seq<char>> {
    let base = seq![
        "--allow-overwrite=true"@,
        "--auto-file-renaming=false"@,
        "--summary-interval=0"@,
        "--seed-time=0"@,
        "--bt-seed-until=0"@,
        "--bt-stop-timeout=0"@,
        "--bt-remove-unselected-file=true"@,
        "--bt-save-metadata=false"@,
        "--dir"@,
        dir,
    ];
    let with_out = match out_name {
        Some(n) => base + seq!["--out"@, n],
        None => base,
    };
    with_out + seq![source]
}

/// Build the torrent-downloader argument list. Magnet and torrent sources
/// omit `--out`, as the tool names their payload itself.
pub fn build_aria2_args(source: &str, dir: &str, magnet_or_torrent: bool, out_name: &str) -> (r:
    Vec<String>)
    ensures
        strs(r@) == spec_aria2_args(
            source@,
            dir@,
            if magnet_or_torrent {
                None
            } else {
                Some(out_name@)
            },
        ),
{
    let mut args: Vec<String> = Vec::new();
    args.push(String::from_str("--allow-overwrite=true"));
    args.push(String::from_str("--auto-file-renaming=false"));
    args.push(String::from_str("--summary-interval=0"));
    args.push(String::from_str("--seed-time=0"));
    args.push(String::from_str("--bt-seed-until=0"));
    args.push(String::from_str("--bt-stop-timeout=0"));
    args.push(String::from_str("--bt-remove-unselected-file=true"));
    args.push(String::from_str("--bt-save-metadata=false"));
    args.push(String::from_str("--dir"));
    args.push(String::from_str(dir));
    if !magnet_or_torrent {
        args.push(String::from_str("--out"));
        args.push(String::from_str(out_name));
    }
    args.push(String::from_str(source));
    proof {
        assert(strs(args@) =~= spec_aria2_args(
            source@,
            dir@,
            if magnet_or_torrent {
                None
            } else {
                Some(out_name@)
            },
        ));
    }
    args
}

/// The exact page-downloader invocation: best video plus best audio,
/// single-video mode, printing the final file path, writing to the given
/// output template.
pub open spec fn spec_ytdlp_args(output_template: Seq<char>, url: Seq<char>) -> Seq<Seq<char>> {
    seq![
        "-f"@,
        "bv*+ba/b"@,
        "--no-playlist"@,
        "--print"@,
        "after_move:filepath"@,
        "-o"@,
        output_template,
        url,
    ]
}

/// Build the page-downloader argument list.
pub fn build_ytdlp_args(output_template: &str, url: &str) -> (r: Vec<String>)
    ensures
        strs(r@) == spec_ytdlp_args(output_template@, url@),
{
    let mut args: Vec<String> = Vec::new();
    args.push(String::from_str("-f"));
    args.push(String::from_str("bv*+ba/b"));
    args.push(String::from_str("--no-playlist"));
    args.push(String::from_str("--print"));
    args.push(String::from_str("after_move:filepath"));
    args.push(String::from_str("-o"));
    args.push(String::from_str(output_template));
    args.push(String::from_str(url));
    proof {
        assert(strs(args@) =~= spec_ytdlp_args(output_template@, url@));
    }
    args
}

// ------------------------------------------------------------------
// Downloader output handling.
// ------------------------------------------------------------------

/// The last non-empty line of the tool's stdout, as bytes.
pub fn last_nonempty_line(out: &str) -> (r: Option<Vec<u8>>)
    ensures
        match r {
            Some(v) => spec_segments(out.spec_bytes()).len() > 0 && v@ == spec_segments(
                out.spec_bytes(),
            ).last(),
            None => spec_segments(out.spec_bytes()).len() == 0,
        },
{
    let bytes = out.as_bytes();
    let n = bytes.len();
    let mut j: usize = n;
    proof {
        assert(bytes@.take(n as int) =~= bytes@);
    }
    while j > 0 && nl_at(bytes, j)
        invariant
            n == bytes@.len(),
            j <= n,
            spec_segments(bytes@) == spec_segments(bytes@.take(j as int)),
        decreases j,
    {
        proof {
            assert(bytes@.take(j as int).last() == bytes@[j - 1]);
            assert(bytes@.take(j as int).drop_last() =~= bytes@.take(j as int - 1));
        }
        j = j - 1;
    }
    proof {
        assert(bytes@.take(n as int) =~= bytes@);
    }
    if j == 0 {
        proof {
            assert(bytes@.take(0) =~= Seq::<u8>::empty());
        }
        return None;
    }
    let mut i: usize = j;
    while i > 0 && !nl_at(bytes, i)
        invariant
            n == bytes@.len(),
            i <= j <= n,
            forall|k: int| i <= k < j ==> !crate::monitor::is_nl(#[trigger] bytes@[k]),
        decreases i,
    {
        i = i - 1;
    }
    let line = vstd::slice::slice_to_vec(vstd::slice::slice_subrange(bytes, i, j));
    proof {
        let t = bytes@.take(j as int);
        lemma_remainder_suffix(bytes@.take(i as int), bytes@.subrange(i as int, j as int));
        assert(bytes@.take(i as int) + bytes@.subrange(i as int, j as int) =~= t);
        crate::monitor::lemma_segments_last(t);
        assert(line@ =~= bytes@.subrange(i as int, j as int));
    }
    Some(line)
}

fn nl_at(bytes: &[u8], j: usize) -> (r: bool)
    requires
        1 <= j <= bytes@.len(),
    ensures
        r == crate::monitor::is_nl(bytes@[j - 1]),
{
    let b = bytes[j - 1];
    b == 10 || b == 13
}

proof fn lemma_remainder_suffix(a: Seq<u8>, b: Seq<u8>)
    requires
        forall|k: int| 0 <= k < b.len() ==> !crate::monitor::is_nl(#[trigger] b[k]),
        a.len() == 0 || crate::monitor::is_nl(a.last()),
    ensures
        crate::monitor::spec_remainder(a + b) == b,
    decreases b.len(),
{
    if b.len() == 0 {
        assert(a + b =~= a);
        if a.len() > 0 {
            assert(crate::monitor::spec_remainder(a) =~= Seq::<u8>::empty());
        } else {
            assert(crate::monitor::spec_remainder(a) =~= Seq::<u8>::empty());
        }
        assert(crate::monitor::spec_remainder(a + b) =~= b);
    } else {
        let b0 = b.drop_last();
        assert(forall|k: int| 0 <= k < b0.len() ==> !crate::monitor::is_nl(#[trigger] b0[k]));
        lemma_remainder_suffix(a, b0);
        assert((a + b).drop_last() =~= a + b0);
        assert((a + b).last() == b.last());
        assert(crate::monitor::spec_remainder(a + b) =~= b);
    }
}

/// What to do once the torrent downloader exits successfully.
#[derive(Clone, Copy, Debug, PartialEq, Eq, Structural)]
pub enum Aria2Outcome {
    /// The target file exists: done.
    TargetReady,
    /// Exactly one new regular file appeared: rename it to the target.
    AdoptSingle,
    /// Anything else: a transcode-class failure.
    Unexpected,
}

/// Decide the adoption step after a successful downloader exit: the target
/// existing wins; otherwise exactly one new regular file in the directory
/// is adopted; any other outcome is unexpected.
pub fn aria2_outcome(target_exists: bool, new_entries: usize, single_is_file: bool) -> (r:
    Aria2Outcome)
    ensures
        r == (if target_exists {
            Aria2Outcome::TargetReady
        } else if new_entries == 1 && single_is_file {
            Aria2Outcome::AdoptSingle
        } else {
            Aria2Outcome::Unexpected
        }),
{
    if target_exists {
        Aria2Outcome::TargetReady
    } else if new_entries == 1 && single_is_file {
        Aria2Outcome::AdoptSingle
    } else {
        Aria2Outcome::Unexpected
    }
}

/// Whether the produced path is absolute, by its leading byte.
pub open spec fn spec_is_absolute(path_bytes: Seq<u8>) -> bool {
    path_bytes.len() > 0 && path_bytes[0] == 47
}

/// Resolve the path the page downloader printed: a relative path lands
/// under the destination's parent; the result is renamed when it differs
/// from the target.
pub fn resolve_ytdlp_output(produced: &str, parent: &str, target: &str) -> (r: (String, bool))
    ensures
        spec_is_absolute(produced.spec_bytes()) ==> r.0@ == produced@,
        !spec_is_absolute(produced.spec_bytes()) ==> r.0@ == parent@ + "/"@ + produced@,
        r.1 == (r.0@ != target@),
{
    let slash: Vec<u8> = vec![47u8];
    proof {
        assert(slash@ =~= seq![47u8]);
    }
    let absolute = starts_with_bytes(produced.as_bytes(), slash.as_slice());
    proof {
        if produced.spec_bytes().len() > 0 {
            assert(match_at(produced.spec_bytes(), seq![47u8], 0) == (produced.spec_bytes()[0]
                == 47));
        }
    }
    let resolved: String = if absolute {
        String::from_str(produced)
    } else {
        let mut r = String::from_str(parent);
        r.append("/");
        r.append(produced);
        proof {
            assert(r@ =~= parent@ + "/"@ + produced@);
        }
        r
    };
    let needs_rename = !(resolved == String::from_str(target));
    (resolved, needs_rename)
}

/// The platform file name of a bundled tool: Windows appends `.exe`.
pub fn binary_name(base: &str, windows: bool) -> (r: String)
    ensures
        windows ==> r@ == base@ + ".exe"@,
        !windows ==> r@ == base@,
{
    if windows {
        let mut r = String::from_str(base);
        r.append(".exe");
        r
    } else {
        String::from_str(base)
    }
}

} // verus!
