//! Tests for the relay's request parsing.

use bwrap_core::httpparse::{parse_request_line, RequestType};

#[test]
fn test_parse_connect_request() {
    let request = "CONNECT example.com:443 HTTP/1.1\r\nHost: example.com\r\n\r\n";
    let req_type = parse_request_line(request).unwrap();
    match req_type {
        RequestType::Connect { host, port } => {
            assert_eq!(host, "example.com");
            assert_eq!(port, 443);
        }
        _ => panic!("Expected Connect request type"),
    }
}

#[test]
fn test_parse_connect_with_whitespace() {
    let request = "CONNECT  example.com:8443  HTTP/1.1\r\n\r\n";
    let req_type = parse_request_line(request).unwrap();
    match req_type {
        RequestType::Connect { host, port } => {
            assert_eq!(host, "example.com");
            assert_eq!(port, 8443);
        }
        _ => panic!("Expected Connect request type"),
    }
}

#[test]
fn test_parse_connect_invalid_port() {
    let request = "CONNECT example.com:invalid HTTP/1.1\r\n\r\n";
    let result = parse_request_line(request);
    assert!(result.is_err());
}

#[test]
fn test_parse_connect_no_port() {
    let request = "CONNECT example.com HTTP/1.1\r\n\r\n";
    let result = parse_request_line(request);
    assert!(result.is_err());
}

#[test]
fn test_parse_http_request() {
    let request = "GET http://example.com/path HTTP/1.1\r\nHost: example.com\r\n\r\n";
    let req_type = parse_request_line(request).unwrap();
    match req_type {
        RequestType::Forward { host, port } => {
            assert_eq!(host, "example.com");
            assert_eq!(port, 80);
        }
        _ => panic!("Expected Forward request type"),
    }
}

#[test]
fn test_large_headers_parsing() {
    // Test that we handle large headers correctly
    let mut large_request = String::from("CONNECT example.com:443 HTTP/1.1\r\n");
    // Add many headers
    for i in 0..100 {
        large_request.push_str(&format!("X-Custom-Header-{i}: value\r\n"));
    }
    large_request.push_str("\r\n");

    let req_type = parse_request_line(&large_request).unwrap();
    match req_type {
        RequestType::Connect { host, port } => {
            assert_eq!(host, "example.com");
            assert_eq!(port, 443);
        }
        _ => panic!("Expected Connect request type"),
    }
}

#[test]
fn parse_http_request_via_host_header() {
    let request = "GET /path HTTP/1.1\r\nHost: example.org:8080\r\n\r\n";
    let (host, port) = bwrap_core::httpparse::parse_http_request(request).unwrap();
    assert_eq!(host, "example.org");
    assert_eq!(port, 8080);
}

#[test]
fn parse_http_request_host_header_default_port() {
    let request = "GET /path HTTP/1.1\r\nhost: example.org\r\n\r\n";
    let (host, port) = bwrap_core::httpparse::parse_http_request(request).unwrap();
    assert_eq!(host, "example.org");
    assert_eq!(port, 80);
}

#[test]
fn parse_request_line_needs_two_tokens() {
    assert!(parse_request_line("CONNECT\r\n\r\n").is_err());
    assert!(parse_request_line("").is_err());
}
