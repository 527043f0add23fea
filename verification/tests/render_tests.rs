use httpstat::headers::parse_headers;
use httpstat::printer::{transport_of, Printer, TransportKind};
use httpstat::response::assemble_response;

fn scenario_report() -> String {
    // namelookup 10ms, connect 50ms, pretransfer 50ms, starttransfer 120ms, total 200ms
    String::from(
        "{ \"time_namelookup\": 0.010, \"time_connect\": 0.050, \"time_pretransfer\": 0.050, \"time_redirect\": 0.000, \"time_starttransfer\": 0.120, \"time_total\": 0.200, \"speed_download\": 115042.0, \"speed_upload\": 0.0, \"remote_ip\": \"93.184.216.34\", \"remote_port\": \"443\", \"local_ip\": \"10.0.0.7\", \"local_port\": \"54321\" }",
    )
}

fn scenario_headers() -> &'static str {
    "HTTP/1.1 200 OK\nContent-Type: text/html\nServer: ECS\n"
}

fn scenario_printer(url: &str) -> Printer {
    let resp = assemble_response(
        &scenario_report(),
        scenario_headers(),
        String::from("/tmp/body123"),
        String::from("<html></html>"),
    )
    .unwrap();
    Printer::new(resp, String::from(url))
}

#[test]
fn secure_url_gets_five_segment_layout() {
    let p = scenario_printer("https://example.com");
    let out = p.format_body_text();
    assert!(out.contains("TLS Handshake"));
    let row = format!(
        "[   {}  |     {}    |    {}    |      {}      |      {}     ]",
        " 10ms  ", " 40ms  ", "  0ms  ", " 70ms  ", " 80ms  "
    );
    assert!(out.contains(&row));
    assert!(out.contains("namelookup:10ms   "));
    assert!(out.contains("connect:50ms   "));
    assert!(out.contains("pretransfer:50ms   "));
    assert!(out.contains("starttransfer:120ms  "));
    assert!(out.contains("total:200ms  "));
}

#[test]
fn plain_url_omits_tls_segment() {
    let p = scenario_printer("http://example.com");
    let out = p.format_body_text();
    assert!(!out.contains("TLS"));
    assert!(!out.contains("pretransfer:"));
    let row = format!(
        "[   {}  |     {}    |      {}      |      {}    ]",
        " 10ms  ", " 40ms  ", " 70ms  ", " 80ms  "
    );
    assert!(out.contains(&row));
    assert!(out.contains("namelookup:10ms   "));
    assert!(out.contains("connect:50ms   "));
    assert!(out.contains("starttransfer:120ms  "));
    assert!(out.contains("total:200ms  "));
}

#[test]
fn transport_is_chosen_by_scheme() {
    assert_eq!(transport_of("https://example.com"), TransportKind::Secure);
    assert_eq!(transport_of("http://example.com"), TransportKind::Plain);
    assert_eq!(transport_of("example.com"), TransportKind::Plain);
    assert_eq!(transport_of(""), TransportKind::Plain);
}

#[test]
fn connection_text_names_both_endpoints() {
    let p = scenario_printer("https://example.com");
    assert_eq!(
        p.format_connection_text(),
        "Connected to 93.184.216.34:443 from 10.0.0.7:54321\n\n"
    );
}

#[test]
fn header_text_prints_status_line_then_items() {
    let p = scenario_printer("https://example.com");
    assert_eq!(
        p.format_header_text(),
        "HTTP/1 200\nContent-Type: text/html\nServer: ECS\n"
    );
}

#[test]
fn body_location_names_the_sink() {
    let p = scenario_printer("https://example.com");
    assert_eq!(p.format_body_location_text(), "\nBody stored in: /tmp/body123\n");
}

#[test]
fn response_text_has_the_four_blocks_in_order() {
    let p = scenario_printer("https://example.com");
    let out = p.format_response_text();
    let conn = out.find("Connected to ").unwrap();
    let status = out.find("HTTP/1 200").unwrap();
    let body = out.find("Body stored in: ").unwrap();
    let diagram = out.find("DNS Lookup").unwrap();
    assert!(conn < status && status < body && body < diagram);
}

#[test]
fn printed_status_line_reads_back_as_parsed() {
    let p = scenario_printer("https://example.com");
    let rendered = p.format_header_text();
    let reparsed = parse_headers(&rendered).unwrap();
    assert_eq!(reparsed.version, p.resp.headers.version);
    assert_eq!(reparsed.code, p.resp.headers.code);
    assert_eq!(reparsed.items, p.resp.headers.items);
}

#[test]
fn negative_phase_renders_with_sign() {
    let report = "{ \"time_namelookup\": 0.050, \"time_connect\": 0.010, \"time_pretransfer\": 0.060, \"time_redirect\": 0.0, \"time_starttransfer\": 0.120, \"time_total\": 0.200, \"speed_download\": 0.0, \"speed_upload\": 0.0, \"remote_ip\": \"a\", \"remote_port\": \"b\", \"local_ip\": \"c\", \"local_port\": \"d\" }";
    let resp = assemble_response(report, "HTTP/1.1 200 OK\n", String::from("f"), String::new())
        .unwrap();
    let p = Printer::new(resp, String::from("http://example.com"));
    let out = p.format_body_text();
    assert!(out.contains("-40ms"));
}

#[test]
fn values_wider_than_the_field_are_not_cut() {
    // a total of 12345678 ms does not fit the 7-character field
    let report = "{ \"time_namelookup\": 0.010, \"time_connect\": 0.020, \"time_pretransfer\": 0.030, \"time_redirect\": 0.0, \"time_starttransfer\": 0.040, \"time_total\": 12345.678, \"speed_download\": 0.0, \"speed_upload\": 0.0, \"remote_ip\": \"a\", \"remote_port\": \"b\", \"local_ip\": \"c\", \"local_port\": \"d\" }";
    let resp = assemble_response(report, "HTTP/1.1 200 OK\n", String::from("f"), String::new())
        .unwrap();
    let p = Printer::new(resp, String::from("http://example.com"));
    let out = p.format_body_text();
    assert!(out.contains("total:12345678ms"));
}
