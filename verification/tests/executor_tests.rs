use httpstat::errors::Error;
use httpstat::executor::{build_curl_args, curl_format, executor_outcome, ExecEvent};

#[test]
fn argument_list_holds_reserved_flags_extras_then_url() {
    let extra = vec![String::from("-H"), String::from("Accept: */*")];
    let args = build_curl_args("https://example.com", &extra, "/tmp/h", "/tmp/b").unwrap();
    let expect: Vec<String> = vec![
        String::from("-w"),
        String::from(curl_format()),
        String::from("-D"),
        String::from("/tmp/h"),
        String::from("-o"),
        String::from("/tmp/b"),
        String::from("-s"),
        String::from("-S"),
        String::from("-H"),
        String::from("Accept: */*"),
        String::from("https://example.com"),
    ];
    assert_eq!(args, expect);
}

#[test]
fn overriding_the_silent_flag_is_rejected_before_launch() {
    let extra = vec![String::from("-s")];
    let err = build_curl_args("https://example.com", &extra, "/tmp/h", "/tmp/b").unwrap_err();
    assert_eq!(err, "Error: -s is not allowed in extra curl args");
}

#[test]
fn every_reserved_flag_is_rejected() {
    for flag in ["-w", "-D", "-o", "-s", "-S"] {
        let extra = vec![String::from("-v"), String::from(flag)];
        let err = build_curl_args("http://example.com", &extra, "h", "b").unwrap_err();
        assert_eq!(err, format!("Error: {flag} is not allowed in extra curl args"));
    }
}

#[test]
fn template_interpolates_every_report_field() {
    let t = curl_format();
    for field in [
        "time_namelookup",
        "time_connect",
        "time_pretransfer",
        "time_redirect",
        "time_starttransfer",
        "time_total",
        "speed_download",
        "speed_upload",
        "remote_ip",
        "remote_port",
        "local_ip",
        "local_port",
    ] {
        assert!(t.contains(&format!("%{{{field}}}")));
    }
}

#[test]
fn clean_exit_yields_the_report_text() {
    let ev = ExecEvent::Exited {
        ok: true,
        stdout: String::from("{ the report }"),
        stderr: String::new(),
    };
    assert_eq!(executor_outcome(ev).unwrap(), "{ the report }");
}

#[test]
fn unresolved_host_exit_surfaces_request_failed() {
    // curl exits with code 6 when the host cannot be resolved
    let ev = ExecEvent::Exited {
        ok: false,
        stdout: String::new(),
        stderr: String::from("curl: (6) Could not resolve host: nosuch.example"),
    };
    match executor_outcome(ev) {
        Err(Error::RequestFailed(text)) => {
            assert!(text.contains("Could not resolve host"));
        },
        other => panic!("expected RequestFailed, got {:?}", other),
    }
}

#[test]
fn timeout_and_launch_failure_have_their_own_errors() {
    assert!(matches!(executor_outcome(ExecEvent::TimedOut), Err(Error::RequestTimedOut)));
    assert!(matches!(
        executor_outcome(ExecEvent::LaunchFailed),
        Err(Error::ExecutorLaunchFailed)
    ));
}

#[test]
fn error_messages_are_one_line_and_descriptive() {
    assert_eq!(Error::SinkCreationFailed.message(), "failed to create capture file");
    assert_eq!(Error::ExecutorLaunchFailed.message(), "failed to execute curl");
    assert_eq!(Error::RequestTimedOut.message(), "request timed out");
    assert_eq!(Error::MalformedTimingReport.message(), "failed to parse timing report");
    assert_eq!(Error::MalformedStatusLine.message(), "malformed status line in response headers");
    assert_eq!(Error::MalformedHeaderLine.message(), "malformed header line in response headers");
    assert_eq!(Error::CaptureReadFailed.message(), "failed to read captured response data");
    let failed = Error::RequestFailed(String::from("curl: (7) Failed to connect"));
    assert_eq!(failed.message(), "curl failed: curl: (7) Failed to connect");
}
