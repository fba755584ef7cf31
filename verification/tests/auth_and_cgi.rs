use prgit::window::auth::{credentials_from_decoded, extract_basic_auth};
use prgit::window::cgi::{is_status_header, parse_cgi_output, status_from_value};

#[test]
fn basic_auth_user_and_ticket() {
    // "alice:ABCDEF0123" in standard base64
    let (user, pass) = extract_basic_auth("Basic YWxpY2U6QUJDREVGMDEyMw==").unwrap();
    assert_eq!(user, "alice");
    assert_eq!(pass, "ABCDEF0123");
}

#[test]
fn basic_auth_splits_at_first_colon() {
    // "bob:a:b"
    let (user, pass) = extract_basic_auth("Basic Ym9iOmE6Yg==").unwrap();
    assert_eq!(user, "bob");
    assert_eq!(pass, "a:b");
}

#[test]
fn basic_auth_refusals() {
    assert!(extract_basic_auth("Bearer YWxpY2U6eA==").is_none());
    assert!(extract_basic_auth("Basic !!!notbase64").is_none());
    // "nocolon"
    assert!(extract_basic_auth("Basic bm9jb2xvbg==").is_none());
    assert!(credentials_from_decoded(&[0xff, 0x3a, 0x41]).is_none());
    assert_eq!(credentials_from_decoded(b":x").unwrap(), ("".to_string(), "x".to_string()));
}

#[test]
fn cgi_output_with_status() {
    let raw = b"Status: 404 Not Found\r\nContent-Type: text/plain\r\n\r\nmissing";
    let r = parse_cgi_output(raw);
    assert_eq!(r.status, 404);
    assert_eq!(r.headers.len(), 1);
    assert_eq!(r.headers[0].0, "Content-Type");
    assert_eq!(r.headers[0].1, b"text/plain".to_vec());
    assert_eq!(&raw[r.body_offset..], b"missing");
}

#[test]
fn cgi_output_without_status_is_ok() {
    let raw = b"Content-Type: application/x-git-upload-pack-advertisement\r\n\r\nbody";
    let r = parse_cgi_output(raw);
    assert_eq!(r.status, 200);
    assert_eq!(r.headers.len(), 1);
    assert_eq!(&raw[r.body_offset..], b"body");
}

#[test]
fn cgi_output_that_does_not_parse_is_all_body() {
    let raw = b"no headers here";
    let r = parse_cgi_output(raw);
    assert_eq!(r.status, 200);
    assert!(r.headers.is_empty());
    assert_eq!(r.body_offset, 0);
}

#[test]
fn status_values() {
    assert_eq!(status_from_value(b"500 Internal Server Error"), 500);
    assert_eq!(status_from_value(b"  302"), 302);
    assert_eq!(status_from_value(b"abc"), 200);
    assert_eq!(status_from_value(b"99"), 200);
    assert_eq!(status_from_value(b"1000"), 200);
    assert_eq!(status_from_value(b""), 200);
    assert_eq!(status_from_value(&[0xff, 0x34]), 200);
    assert!(is_status_header("status"));
    assert!(is_status_header("STATUS"));
    assert!(is_status_header("Status"));
    assert!(!is_status_header("Statuses"));
}
