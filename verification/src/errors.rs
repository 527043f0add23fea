//! Failures of the request/render pipeline. Every failure is terminal for the
//! current invocation: nothing is retried and no partial waterfall is printed.

use vstd::prelude::*;
use vstd::string::*;

verus! {

/// Why a pipeline run failed.
#[derive(Debug, PartialEq, Eq)]
pub enum Error {
    /// A capture sink could not be created before the request was launched.
    SinkCreationFailed,
    /// The external HTTP client could not be started at all.
    ExecutorLaunchFailed,
    /// The external HTTP client exited with a non-zero status; carries its
    /// diagnostic text.
    RequestFailed(String),
    /// The external HTTP client did not exit within the caller's deadline.
    RequestTimedOut,
    /// The timing report text did not have the expected structured shape.
    MalformedTimingReport,
    /// The first captured header line held no protocol version / status code.
    MalformedStatusLine,
    /// A captured header line held no name/value separator.
    MalformedHeaderLine,
    /// A capture sink could not be reopened or read after the request ended.
    CaptureReadFailed,
}

/// The one-line message shown to the user for each failure.
pub open spec fn error_message_spec(e: Error) -> Seq<char> {
    match e {
        Error::SinkCreationFailed => "failed to create capture file"@,
        Error::ExecutorLaunchFailed => "failed to execute curl"@,
        Error::RequestFailed(t) => "curl failed: "@ + t@,
        Error::RequestTimedOut => "request timed out"@,
        Error::MalformedTimingReport => "failed to parse timing report"@,
        Error::MalformedStatusLine => "malformed status line in response headers"@,
        Error::MalformedHeaderLine => "malformed header line in response headers"@,
        Error::CaptureReadFailed => "failed to read captured response data"@,
    }
}

impl Error {
    /// One-line human-readable description of this failure.
    pub fn message(&self) -> (r: String)
        ensures
            r@ == error_message_spec(*self),
    {
        match self {
            Error::SinkCreationFailed => String::from_str("failed to create capture file"),
            Error::ExecutorLaunchFailed => String::from_str("failed to execute curl"),
            Error::RequestFailed(t) => {
                let mut s = String::from_str("curl failed: ");
                s.append(t.as_str());
                s
            },
            Error::RequestTimedOut => String::from_str("request timed out"),
            Error::MalformedTimingReport => String::from_str("failed to parse timing report"),
            Error::MalformedStatusLine => String::from_str(
                "malformed status line in response headers",
            ),
            Error::MalformedHeaderLine => String::from_str(
                "malformed header line in response headers",
            ),
            Error::CaptureReadFailed => String::from_str("failed to read captured response data"),
        }
    }
}

} // verus!
