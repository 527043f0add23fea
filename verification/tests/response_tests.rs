use httpstat::errors::Error;
use httpstat::response::assemble_response;

const GOOD_REPORT: &str = "{ \"time_namelookup\": 0.010, \"time_connect\": 0.050, \"time_pretransfer\": 0.050, \"time_redirect\": 0.000, \"time_starttransfer\": 0.120, \"time_total\": 0.200, \"speed_download\": 0.0, \"speed_upload\": 0.0, \"remote_ip\": \"203.0.113.9\", \"remote_port\": \"80\", \"local_ip\": \"192.0.2.4\", \"local_port\": \"40000\" }";

#[test]
fn assembles_all_captured_artifacts() {
    let resp = assemble_response(
        GOOD_REPORT,
        "HTTP/1.1 200 OK\nContent-Length: 0\n",
        String::from("/tmp/bodyfile"),
        String::from("the body"),
    )
    .unwrap();
    assert_eq!(resp.metrics.time_total, 200_000);
    assert_eq!(resp.headers.code, 200);
    assert_eq!(resp.body.filename, "/tmp/bodyfile");
    assert_eq!(resp.body.content, "the body");
}

#[test]
fn malformed_headers_fail_before_the_timing_report() {
    let r = assemble_response(
        "not a report",
        "not a status line",
        String::from("f"),
        String::new(),
    );
    assert!(matches!(r, Err(Error::MalformedStatusLine)));
}

#[test]
fn malformed_report_fails_when_headers_are_fine() {
    let r = assemble_response(
        "not a report",
        "HTTP/1.1 200 OK\n",
        String::from("f"),
        String::new(),
    );
    assert!(matches!(r, Err(Error::MalformedTimingReport)));
}
