//! The library's error type and its mapping to HTTP status codes.

use vstd::prelude::*;
use vstd::string::StringExecFns;

verus! {

/// An error of the service, classified by how it surfaces to clients.
#[derive(Debug)]
pub enum AppError {
    /// Malformed input from the client: bad identifier, URL, range or path.
    Validation(String),
    /// Unknown job or missing artifact.
    NotFound(String),
    /// The media-tool pipeline produced an unexpected result.
    Transcode(String),
    /// A required external tool is missing or reported failure.
    Dependency(String),
    /// A raw filesystem error.
    Io(String),
    /// An upstream HTTP failure while fetching a remote source.
    Http(String),
}

impl AppError {
    pub fn validation(message: String) -> (e: AppError)
        ensures
            e == AppError::Validation(message),
    {
        AppError::Validation(message)
    }

    pub fn not_found(message: String) -> (e: AppError)
        ensures
            e == AppError::NotFound(message),
    {
        AppError::NotFound(message)
    }

    pub fn transcode(message: String) -> (e: AppError)
        ensures
            e == AppError::Transcode(message),
    {
        AppError::Transcode(message)
    }

    pub fn dependency(message: String) -> (e: AppError)
        ensures
            e == AppError::Dependency(message),
    {
        AppError::Dependency(message)
    }

    /// The HTTP status code that this error maps to.
    pub fn http_status(&self) -> (code: u16)
        ensures
            code == spec_http_status(*self),
    {
        match self {
            AppError::Validation(_) => 400,
            AppError::NotFound(_) => 404,
            AppError::Transcode(_) => 500,
            AppError::Dependency(_) => 503,
            AppError::Io(_) => 500,
            AppError::Http(_) => 500,
        }
    }

    /// The human-readable message: a fixed prefix for the kind, then the
    /// detail that was recorded.
    pub fn message(&self) -> (s: String)
        ensures
            s@ == spec_message(*self),
    {
        let mut out: String;
        match self {
            AppError::Validation(m) => {
                out = String::from_str("validation failed: ");
                out.append(m.as_str());
            }
            AppError::NotFound(m) => {
                out = String::from_str("resource not found: ");
                out.append(m.as_str());
            }
            AppError::Transcode(m) => {
                out = String::from_str("transcoding failed: ");
                out.append(m.as_str());
            }
            AppError::Dependency(m) => {
                out = String::from_str("external dependency missing: ");
                out.append(m.as_str());
            }
            AppError::Io(m) => {
                out = String::from_str("i/o failed: ");
                out.append(m.as_str());
            }
            AppError::Http(m) => {
                out = String::from_str("upstream http failure: ");
                out.append(m.as_str());
            }
        }
        out
    }
}

/// The HTTP status of each error kind: validation 400, not-found 404,
/// missing dependency 503, everything else 500.
pub open spec fn spec_http_status(e: AppError) -> u16 {
    match e {
        AppError::Validation(_) => 400,
        AppError::NotFound(_) => 404,
        AppError::Transcode(_) => 500,
        AppError::Dependency(_) => 503,
        AppError::Io(_) => 500,
        AppError::Http(_) => 500,
    }
}

/// The message of each error kind.
pub open spec fn spec_message(e: AppError) -> Seq<char> {
    match e {
        AppError::Validation(m) => "validation failed: "@ + m@,
        AppError::NotFound(m) => "resource not found: "@ + m@,
        AppError::Transcode(m) => "transcoding failed: "@ + m@,
        AppError::Dependency(m) => "external dependency missing: "@ + m@,
        AppError::Io(m) => "i/o failed: "@ + m@,
        AppError::Http(m) => "upstream http failure: "@ + m@,
    }
}

} // verus!
