use httpstat::errors::Error;
use httpstat::timing::{parse_timing_report, Metrics, TimingReport};

fn sample_report_text(
    nl: &str,
    co: &str,
    pre: &str,
    re: &str,
    st: &str,
    to: &str,
) -> String {
    format!(
        "{{\n  \"time_namelookup\":    {nl},\n  \"time_connect\":       {co},\n  \"time_pretransfer\":   {pre},\n  \"time_redirect\":      {re},\n  \"time_starttransfer\": {st},\n  \"time_total\":         {to},\n  \"speed_download\":     115042.000,\n  \"speed_upload\":       0.000,\n  \"remote_ip\":          \"93.184.216.34\",\n  \"remote_port\":        \"443\",\n  \"local_ip\":           \"10.0.0.7\",\n  \"local_port\":         \"54321\"\n}}"
    )
}

#[test]
fn parses_scenario_a_report() {
    let text = sample_report_text("0.010", "0.050", "0.050", "0.000", "0.120", "0.200");
    let m = Metrics::new(&text).unwrap();
    // derived phases in microseconds: 10ms, 40ms, 0ms, 70ms, 80ms
    assert_eq!(m.range_dns, 10_000);
    assert_eq!(m.range_connection, 40_000);
    assert_eq!(m.range_ssl, 0);
    assert_eq!(m.range_server, 70_000);
    assert_eq!(m.range_transfer, 80_000);
    assert_eq!(
        m.range_dns + m.range_connection + m.range_ssl + m.range_server + m.range_transfer,
        200_000
    );
    assert_eq!(m.time_total, 200_000);
    assert_eq!(m.remote_ip, "93.184.216.34");
    assert_eq!(m.remote_port, "443");
    assert_eq!(m.local_ip, "10.0.0.7");
    assert_eq!(m.local_port, "54321");
    assert_eq!(m.speed_download, 115_042_000_000);
}

#[test]
fn phases_sum_to_total_for_ordered_timestamps() {
    let text = sample_report_text("0.004251", "0.072132", "0.201003", "0.000", "0.350900", "0.500001");
    let m = Metrics::new(&text).unwrap();
    assert!(m.range_dns >= 0);
    assert!(m.range_connection >= 0);
    assert!(m.range_ssl >= 0);
    assert!(m.range_server >= 0);
    assert!(m.range_transfer >= 0);
    assert_eq!(
        m.range_dns + m.range_connection + m.range_ssl + m.range_server + m.range_transfer,
        m.time_total as i64
    );
}

#[test]
fn equal_connect_and_pretransfer_yield_zero_ssl_phase() {
    let text = sample_report_text("0.010", "0.044", "0.044", "0.000", "0.120", "0.200");
    let m = Metrics::new(&text).unwrap();
    assert_eq!(m.range_ssl, 0);
}

#[test]
fn negative_phase_is_kept_not_clamped() {
    // out-of-order timestamps: connect earlier than namelookup
    let text = sample_report_text("0.050", "0.010", "0.060", "0.000", "0.120", "0.200");
    let m = Metrics::new(&text).unwrap();
    assert_eq!(m.range_connection, -40_000);
}

#[test]
fn raw_report_fields_are_micro_units() {
    let text = sample_report_text("0.000001", "0.5", "1", "0.000", "1.25", "2.000000");
    let rep: TimingReport = parse_timing_report(&text).unwrap();
    assert_eq!(rep.time_namelookup, 1);
    assert_eq!(rep.time_connect, 500_000);
    assert_eq!(rep.time_pretransfer, 1_000_000);
    assert_eq!(rep.time_starttransfer, 1_250_000);
    assert_eq!(rep.time_total, 2_000_000);
}

#[test]
fn fractional_digits_beyond_micro_precision_are_floored() {
    let text = sample_report_text("0.0000019", "0.5", "1", "0.000", "1.25", "2.0");
    let rep = parse_timing_report(&text).unwrap();
    assert_eq!(rep.time_namelookup, 1);
}

#[test]
fn missing_field_is_malformed() {
    let text = "{\n  \"time_namelookup\": 0.1\n}";
    assert!(matches!(Metrics::new(text), Err(Error::MalformedTimingReport)));
}

#[test]
fn non_numeric_time_is_malformed() {
    let text = sample_report_text("abc", "0.050", "0.050", "0.000", "0.120", "0.200");
    assert!(matches!(Metrics::new(&text), Err(Error::MalformedTimingReport)));
}

#[test]
fn oversized_whole_part_is_malformed() {
    let text = sample_report_text("1000000000000.0", "0.05", "0.05", "0.0", "0.12", "0.2");
    assert!(matches!(Metrics::new(&text), Err(Error::MalformedTimingReport)));
}

#[test]
fn dangling_decimal_point_is_malformed() {
    let text = sample_report_text("0.", "0.05", "0.05", "0.0", "0.12", "0.2");
    assert!(matches!(Metrics::new(&text), Err(Error::MalformedTimingReport)));
}

#[test]
fn trailing_garbage_is_malformed() {
    let mut text = sample_report_text("0.010", "0.050", "0.050", "0.000", "0.120", "0.200");
    text.push_str("extra");
    assert!(matches!(Metrics::new(&text), Err(Error::MalformedTimingReport)));
}

#[test]
fn fields_out_of_order_are_malformed() {
    // the report is this tool's own template: fields come in its fixed order
    let text = "{ \"time_connect\": 0.1, \"time_namelookup\": 0.2 }";
    assert!(matches!(Metrics::new(text), Err(Error::MalformedTimingReport)));
}

#[test]
fn report_parse_accepts_the_templates_own_shape() {
    // the exact whitespace arrangement the injected template produces
    let text = "\n        {\n            \"time_namelookup\":    0.004,\n            \"time_connect\":       0.045,\n            \"time_pretransfer\":   0.123,\n            \"time_redirect\":      0.000,\n            \"time_starttransfer\": 0.300,\n            \"time_total\":         0.455,\n            \"speed_download\":     9000.5,\n            \"speed_upload\":       0.0,\n            \"remote_ip\":          \"203.0.113.9\",\n            \"remote_port\":        \"80\",\n            \"local_ip\":           \"192.0.2.4\",\n            \"local_port\":         \"40000\"\n        }";
    let rep = parse_timing_report(text).unwrap();
    assert_eq!(rep.time_total, 455_000);
    assert_eq!(rep.speed_download, 9_000_500_000);
    assert_eq!(rep.remote_ip, "203.0.113.9");
}
