//! The aggregate of one request/response cycle: derived metrics, parsed
//! headers and the body's capture location, assembled from the captured
//! artifacts once the external client has exited cleanly.

use crate::errors::Error;
use crate::headers::{parse_headers, parse_headers_spec, Headers, HeadersModel};
use crate::timing::{derive_spec, metrics_wf, parse_report_spec, Metrics, MetricsModel};
use vstd::prelude::*;

verus! {

/// Where the response body was captured, and its text for callers that want
/// it (rendering itself only needs the location).
pub struct Body {
    /// Path of the capture sink holding the response body.
    pub filename: String,
    /// The body text read back from that sink.
    pub content: String,
}

/// Mathematical view of [`Body`].
#[verifier::ext_equal]
pub ghost struct BodyModel {
    pub filename: Seq<char>,
    pub content: Seq<char>,
}

impl Body {
    pub open spec fn model(&self) -> BodyModel {
        BodyModel { filename: self.filename@, content: self.content@ }
    }
}

/// Everything captured and derived for exactly one request.
pub struct Response {
    pub metrics: Metrics,
    pub headers: Headers,
    pub body: Body,
}

/// Mathematical view of [`Response`].
#[verifier::ext_equal]
pub ghost struct ResponseModel {
    pub metrics: MetricsModel,
    pub headers: HeadersModel,
    pub body: BodyModel,
}

impl Response {
    pub open spec fn model(&self) -> ResponseModel {
        ResponseModel {
            metrics: self.metrics.model(),
            headers: self.headers.model(),
            body: self.body.model(),
        }
    }
}

/// Builds the [`Response`] from the captured artifacts: the timing report
/// text (the client's standard output), the header block read back from the
/// header sink, and the body sink's path and content.
///
/// Fails exactly when one of the two parses fails: with the header parser's
/// error when the header block is malformed, else with
/// [`Error::MalformedTimingReport`] when the report text is.
pub fn assemble_response(
    report_text: &str,
    header_text: &str,
    body_filename: String,
    body_content: String,
) -> (r: Result<Response, Error>)
    ensures
        match r {
            Ok(resp) => parse_headers_spec(header_text@) == Ok::<HeadersModel, Error>(
                resp.headers.model(),
            ) && parse_report_spec(report_text@) is Some && resp.metrics.model() == derive_spec(
                parse_report_spec(report_text@)->Some_0,
            ) && metrics_wf(resp.metrics.model()) && resp.body.filename@ == body_filename@
                && resp.body.content@ == body_content@,
            Err(e) => match parse_headers_spec(header_text@) {
                Err(he) => e == he,
                Ok(_) => e == Error::MalformedTimingReport && parse_report_spec(
                    report_text@,
                ) is None,
            },
        },
{
    let headers = match parse_headers(header_text) {
        Ok(h) => h,
        Err(e) => {
            return Err(e);
        },
    };
    let metrics = match Metrics::new(report_text) {
        Ok(m) => m,
        Err(e) => {
            return Err(e);
        },
    };
    Ok(Response { metrics, headers, body: Body { filename: body_filename, content: body_content } })
}

} // verus!
