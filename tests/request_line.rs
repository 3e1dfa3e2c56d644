use jdbhttpd::request::{is_blank, is_space_byte, parse_request_line};

fn parse(s: &str) -> Option<(String, String)> {
    parse_request_line(&s.as_bytes().to_vec()).map(|r| {
        (String::from_utf8(r.method).unwrap(), String::from_utf8(r.target).unwrap())
    })
}

#[test]
fn parses_method_and_target() {
    assert_eq!(parse("GET /index.html HTTP/1.0\r\n"), Some(("GET".to_string(), "/index.html".to_string())));
}

#[test]
fn tolerates_runs_of_whitespace() {
    assert_eq!(parse("  GET \t  /a/b/   HTTP/1.0  extra\n"), Some(("GET".to_string(), "/a/b/".to_string())));
}

#[test]
fn two_tokens_without_version() {
    assert_eq!(parse("HEAD /x"), Some(("HEAD".to_string(), "/x".to_string())));
}

#[test]
fn one_token_is_malformed() {
    assert_eq!(parse("GET\r\n"), None);
    assert_eq!(parse("   GET   \n"), None);
}

#[test]
fn empty_and_blank_lines_are_malformed() {
    assert_eq!(parse(""), None);
    assert_eq!(parse("\r\n"), None);
    assert_eq!(parse(" \t \n"), None);
}

#[test]
fn blank_line_detection() {
    assert!(is_blank(&b"\n".to_vec()));
    assert!(is_blank(&b"\r\n".to_vec()));
    assert!(!is_blank(&b"".to_vec()));
    assert!(!is_blank(&b" \r\n".to_vec()));
    assert!(!is_blank(&b"\n\n".to_vec()));
    assert!(!is_blank(&b"Host: x\r\n".to_vec()));
}

#[test]
fn whitespace_bytes() {
    for b in [b' ', b'\t', b'\n', 0x0b, 0x0c, b'\r'] {
        assert!(is_space_byte(b));
    }
    for b in [b'a', b'/', 0x00, 0x08, 0x0e, 0xa0] {
        assert!(!is_space_byte(b));
    }
}
