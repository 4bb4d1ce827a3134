use http_server::headers::Headers;
use http_server::response::{push_decimal, Response};

fn one(name: &str, value: &str) -> Headers {
    let mut headers = Headers::new();
    headers.insert(name.to_string(), value.to_string());
    headers
}

#[test]
fn default_response_is_ok_without_headers_or_body() {
    let r = Response::default();
    assert_eq!(r.protocol_version(), "HTTP/1.1");
    assert_eq!(r.status_code(), "200");
    assert_eq!(r.status_text(), "OK");
    assert_eq!(r.headers(), "");
    assert_eq!(r.body(), "");
    assert_eq!(r.to_wire(), "HTTP/1.1 200 OK\r\nContent-Length:0\r\n\r\n");
}

#[test]
fn status_text_follows_the_status_code() {
    assert_eq!(Response::new("200", None, None).status_text(), "OK");
    assert_eq!(Response::new("400", None, None).status_text(), "Bad Request");
    assert_eq!(Response::new("500", None, None).status_text(), "Internal Server Error");
    assert_eq!(Response::new("404", None, None).status_text(), "Not Found");
    assert_eq!(Response::new("302", None, None).status_text(), "Not Found");
    assert_eq!(Response::new("", None, None).status_text(), "Not Found");
    assert_eq!(Response::new("302", None, None).status_code(), "302");
}

#[test]
fn plain_ok_response_goes_over_the_wire() {
    let r = Response::new("200", None, Some("hello".to_string()));
    let text: String = r.into();
    assert_eq!(
        text,
        "HTTP/1.1 200 OK\r\nContent-Length:5\r\nContent-Type:text/plain\r\n\r\nhello"
    );
    assert_eq!(text.lines().next(), Some("HTTP/1.1 200 OK"));
    assert!(text.contains("Content-Type:text/plain"));
}

#[test]
fn content_length_counts_bytes() {
    let r = Response::new("200", None, Some("h\u{e9}llo \u{4e16}\u{754c}".to_string()));
    assert_eq!(r.body().len(), 13);
    assert!(r.to_wire().contains("\r\nContent-Length:13\r\n"));
}

#[test]
fn missing_headers_become_plain_text() {
    let r = Response::new("200", None, None);
    assert_eq!(r.headers(), "Content-Type:text/plain\r\n");
}

#[test]
fn given_headers_are_kept_as_they_are() {
    let mut headers = one("Content-Type", "text/html");
    headers.insert("X-Trace".to_string(), "7".to_string());
    let r = Response::new("500", Some(headers), Some("oops".to_string()));
    assert_eq!(r.headers(), "Content-Type:text/html\r\nX-Trace:7\r\n");
    assert_eq!(
        r.to_wire(),
        "HTTP/1.1 500 Internal Server Error\r\nContent-Length:4\r\nContent-Type:text/html\r\nX-Trace:7\r\n\r\noops"
    );
    let none = Response::new("200", Some(Headers::new()), None);
    assert_eq!(none.headers(), "");
}

#[test]
fn serializing_twice_gives_the_same_text() {
    let mut headers = one("B", "2");
    headers.insert("A".to_string(), "1".to_string());
    headers.insert("C".to_string(), "3".to_string());
    let r = Response::new("400", Some(headers), Some("x".to_string()));
    let first = r.to_wire();
    let second = r.to_wire();
    assert_eq!(first, second);
    assert_eq!(first.as_bytes(), second.as_bytes());
    assert_eq!(String::from(r.clone()), first);
    assert_eq!(r.clone(), r);
}

#[test]
fn decimal_has_no_leading_zeros() {
    for (n, expected) in [
        (0usize, "0"),
        (7, "7"),
        (10, "10"),
        (99, "99"),
        (100, "100"),
        (1024, "1024"),
        (90210, "90210"),
    ] {
        let mut out = String::from("n=");
        push_decimal(&mut out, n);
        assert_eq!(out, format!("n={}", expected));
    }
    let mut out = String::new();
    push_decimal(&mut out, usize::MAX);
    assert_eq!(out, usize::MAX.to_string());
}
