//! Submission-facing types: the upload response with its four URLs, and
//! the client's transcode options.

use vstd::prelude::*;
use vstd::string::StringExecFns;

use crate::encoder::EncodeParams;
use crate::ids::{spec_hyphenated, JobId};

verus! {

/// What a submission returns: the job identifier and where to poll and
/// fetch results.
#[derive(Debug)]
pub struct UploadResponse {
    pub id: String,
    pub status_url: String,
    pub download_url: String,
    pub hls_master_url: String,
    pub dash_manifest_url: String,
}

/// Build the submission response for a job: the hyphenated identifier and
/// the status, progressive, HLS-master and DASH-manifest URLs derived from
/// it.
pub fn build_upload_response(id: &JobId) -> (r: UploadResponse)
    ensures
        r.id@ == spec_hyphenated(id.value),
        r.status_url@ == "/jobs/"@ + spec_hyphenated(id.value),
        r.download_url@ == "/videos/"@ + spec_hyphenated(id.value) + "/download"@,
        r.hls_master_url@ == "/videos/"@ + spec_hyphenated(id.value) + "/hls/master.m3u8"@,
        r.dash_manifest_url@ == "/videos/"@ + spec_hyphenated(id.value) + "/dash/manifest.mpd"@,
{
    let id_str = id.hyphenated();

    let mut status_url = String::from_str("/jobs/");
    status_url.append(id_str.as_str());

    let mut download_url = String::from_str("/videos/");
    download_url.append(id_str.as_str());
    download_url.append("/download");

    let mut hls_master_url = String::from_str("/videos/");
    hls_master_url.append(id_str.as_str());
    hls_master_url.append("/hls/master.m3u8");

    let mut dash_manifest_url = String::from_str("/videos/");
    dash_manifest_url.append(id_str.as_str());
    dash_manifest_url.append("/dash/manifest.mpd");

    proof {
        assert(download_url@ =~= "/videos/"@ + spec_hyphenated(id.value) + "/download"@);
        assert(hls_master_url@ =~= "/videos/"@ + spec_hyphenated(id.value) + "/hls/master.m3u8"@);
        assert(dash_manifest_url@ =~= "/videos/"@ + spec_hyphenated(id.value)
            + "/dash/manifest.mpd"@);
    }
    UploadResponse { id: id_str, status_url, download_url, hls_master_url, dash_manifest_url }
}

/// The client's optional transcode tuning.
#[derive(Debug, Clone, Copy, Default)]
pub struct ClientTranscodeOptions {
    pub crf: Option<u8>,
    pub cpu_used: Option<u8>,
}

/// A remote-URL submission.
#[derive(Debug)]
pub struct RemoteUploadRequest {
    pub url: String,
    pub transcode: Option<ClientTranscodeOptions>,
}

/// A page-URL submission fetched through the downloader tool.
#[derive(Debug)]
pub struct YtDlpDownloadRequest {
    pub url: String,
    pub transcode: Option<ClientTranscodeOptions>,
}

/// The encode parameters that a client's options select: defaults where
/// unset, then sanitized.
pub open spec fn spec_params_from_options(o: ClientTranscodeOptions) -> EncodeParams {
    let crf = match o.crf {
        Some(c) => c,
        None => 24u8,
    };
    let cpu = match o.cpu_used {
        Some(c) => c,
        None => 4u8,
    };
    EncodeParams {
        crf: if crf > 63 {
            63u8
        } else {
            crf
        },
        cpu_used: if cpu > 8 {
            8u8
        } else {
            cpu
        },
        encoder: None,
    }
}

impl From<ClientTranscodeOptions> for EncodeParams {
    /// Client options override the defaults and are then sanitized.
    fn from(options: ClientTranscodeOptions) -> (r: EncodeParams) {
        let mut params = EncodeParams { crf: 24, cpu_used: 4, encoder: None };
        match options.crf {
            Some(crf) => {
                params.crf = crf;
            },
            None => {},
        }
        match options.cpu_used {
            Some(cpu) => {
                params.cpu_used = cpu;
            },
            None => {},
        }
        params.sanitized()
    }
}

impl vstd::std_specs::convert::FromSpecImpl<ClientTranscodeOptions> for EncodeParams {
    open spec fn obeys_from_spec() -> bool {
        true
    }

    open spec fn from_spec(o: ClientTranscodeOptions) -> EncodeParams {
        spec_params_from_options(o)
    }
}

} // verus!
