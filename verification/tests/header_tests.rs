use httpstat::errors::Error;
use httpstat::headers::parse_headers;

#[test]
fn parses_scenario_c_block() {
    let h = parse_headers("HTTP/1.1 404 Not Found\nContent-Type: text/plain\n").unwrap();
    assert_eq!(h.version, 1);
    assert_eq!(h.code, 404);
    assert_eq!(h.items.len(), 1);
    assert_eq!(h.items[0].0, "Content-Type");
    assert_eq!(h.items[0].1, "text/plain");
}

#[test]
fn parsing_is_idempotent() {
    let block = "HTTP/1.1 200 OK\r\nServer: nginx\r\nSet-Cookie: a=1\r\nSet-Cookie: b=2\r\n\r\n";
    let first = parse_headers(block).unwrap();
    let again = parse_headers(block).unwrap();
    assert_eq!(first, again);
}

#[test]
fn crlf_line_endings_and_blank_lines_are_handled() {
    let h = parse_headers("HTTP/1.1 200 OK\r\nServer: x\r\n\r\n").unwrap();
    assert_eq!(h.version, 1);
    assert_eq!(h.code, 200);
    assert_eq!(h.items.len(), 1);
    assert_eq!(h.items[0].0, "Server");
    assert_eq!(h.items[0].1, "x");
}

#[test]
fn duplicates_and_order_are_preserved() {
    let h = parse_headers("HTTP/1.1 200 OK\nB: 2\nA: 1\nB: 3\n").unwrap();
    assert_eq!(h.items.len(), 3);
    assert_eq!(h.items[0], ("B".to_string(), "2".to_string()));
    assert_eq!(h.items[1], ("A".to_string(), "1".to_string()));
    assert_eq!(h.items[2], ("B".to_string(), "3".to_string()));
}

#[test]
fn header_name_case_is_not_normalized() {
    let h = parse_headers("HTTP/1.1 200 OK\ncontent-TYPE: Text/HTML\n").unwrap();
    assert_eq!(h.items[0].0, "content-TYPE");
    assert_eq!(h.items[0].1, "Text/HTML");
}

#[test]
fn value_may_contain_colons() {
    let h = parse_headers("HTTP/1.1 200 OK\nLocation: https://example.com/x\n").unwrap();
    assert_eq!(h.items[0].0, "Location");
    assert_eq!(h.items[0].1, "https://example.com/x");
}

#[test]
fn status_line_without_reason_phrase_parses() {
    let h = parse_headers("HTTP/2 200\nserver: h2o\n").unwrap();
    assert_eq!(h.version, 2);
    assert_eq!(h.code, 200);
}

#[test]
fn empty_block_is_malformed_status_line() {
    assert!(matches!(parse_headers(""), Err(Error::MalformedStatusLine)));
    assert!(matches!(parse_headers("\r\n\r\n"), Err(Error::MalformedStatusLine)));
}

#[test]
fn status_line_without_code_is_malformed() {
    assert!(matches!(parse_headers("garbage\n"), Err(Error::MalformedStatusLine)));
    assert!(matches!(parse_headers("HTTP/1.1\nA: b\n"), Err(Error::MalformedStatusLine)));
    assert!(matches!(parse_headers("HTTP/x 200 OK\n"), Err(Error::MalformedStatusLine)));
    assert!(matches!(parse_headers("HTTP/1.1 abc OK\n"), Err(Error::MalformedStatusLine)));
}

#[test]
fn header_line_without_separator_is_malformed() {
    assert!(matches!(
        parse_headers("HTTP/1.1 200 OK\nNoSeparatorHere\n"),
        Err(Error::MalformedHeaderLine)
    ));
    assert!(matches!(
        parse_headers("HTTP/1.1 200 OK\nName:value\n"),
        Err(Error::MalformedHeaderLine)
    ));
}

#[test]
fn appended_redirect_blocks_yield_the_first_status() {
    // when the external tool appends header blocks across redirects, the
    // parser consumes a single pass: the first block's status line wins and
    // later status lines surface as odd header items
    let h = parse_headers(
        "HTTP/1.1 301 Moved Permanently\r\nLocation: /new\r\n\r\nHTTP/1.1 200 OK\r\nServer: x\r\n",
    )
    .unwrap();
    assert_eq!(h.version, 1);
    assert_eq!(h.code, 301);
    assert_eq!(h.items.len(), 3);
    assert_eq!(h.items[0], ("Location".to_string(), "/new".to_string()));
    assert_eq!(h.items[1], ("HTTP/1.1".to_string(), "200 OK".to_string()));
    assert_eq!(h.items[2], ("Server".to_string(), "x".to_string()));
}

#[test]
fn oversized_version_or_code_is_malformed() {
    assert!(matches!(parse_headers("HTTP/256 200 OK\n"), Err(Error::MalformedStatusLine)));
    assert!(matches!(parse_headers("HTTP/1.1 70000 OK\n"), Err(Error::MalformedStatusLine)));
}

#[test]
fn surrounding_blank_space_is_trimmed() {
    let h = parse_headers("\r\n\nHTTP/1.1 304 Not Modified\nETag: \"abc\"\n\n\n").unwrap();
    assert_eq!(h.version, 1);
    assert_eq!(h.code, 304);
    assert_eq!(h.items[0].1, "\"abc\"");
}
