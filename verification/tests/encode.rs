//! Parsing and request-encoding behaviour.

use httpget::action::{body, get_action, HttpAction};

fn encode_str(url: &str) -> String {
    let action = get_action(url).expect("url should parse");
    body(&action)
}

#[test]
fn encodes_root_path_request() {
    let s = encode_str("http://example.com/");
    assert_eq!(
        s,
        "GET /  HTTP/1.1\r\nHost: example.com\r\nUser-Agent: curl/7.37.1\r\nAccept */*\r\n\r\n"
    );
}

#[test]
fn encodes_path_and_host() {
    let s = encode_str("http://example.org/a/b?q=1");
    assert!(s.starts_with("GET /a/b  HTTP/1.1\r\n"));
    assert!(s.contains("\r\nHost: example.org\r\n"));
    assert!(s.ends_with("\r\nUser-Agent: curl/7.37.1\r\nAccept */*\r\n\r\n"));
}

#[test]
fn request_line_marker_occurs_once() {
    let s = encode_str("http://example.com/");
    assert_eq!(s.matches("GET /").count(), 1);
    assert_eq!(s.matches("Host: example.com").count(), 1);
}

#[test]
fn rejects_relative_and_hostless_strings() {
    assert!(get_action("not a url").is_none());
    assert!(get_action("/just/a/path").is_none());
    assert!(get_action("data:text/plain,hi").is_none());
}

#[test]
fn parses_explicit_port() {
    let action = get_action("http://example.com:8080/x").expect("url should parse");
    let HttpAction::Get(parts) = action;
    assert_eq!(parts.host, "example.com");
    assert_eq!(parts.path, "/x");
    assert_eq!(parts.port, 8080);
}

#[test]
fn default_port_is_scheme_default() {
    let action = get_action("https://example.net/").expect("url should parse");
    let HttpAction::Get(parts) = action;
    assert_eq!(parts.port, 443);
    let action = get_action("http://example.net/").expect("url should parse");
    let HttpAction::Get(parts) = action;
    assert_eq!(parts.port, 80);
}
