use http_server::headers::Headers;
use http_server::request::{
    parse_req_line, process_header, process_req_line, Method, ProtocolVersion, Request, Resource,
};

#[test]
fn should_return_method_get_variant() {
    assert_eq!(Method::Get, Method::from("GET"));

    assert_eq!(Method::Get, "GET".into());
}

#[test]
fn should_return_protocol_version_variant() {
    assert_eq!(ProtocolVersion::HTTP1_1, "HTTP/1.1".into());
}

#[test]
fn should_parse_req_line_string_to_enums() {
    let (m, r, v) = process_req_line("GET /test.html HTTP/1.1");
    assert_eq!(m, Method::Get);
    assert_eq!(r, Resource::Path("/test.html".to_string()));
    assert_eq!(v, ProtocolVersion::HTTP1_1);
}

#[test]
fn should_parse_header_line_string_to_tuple() {
    let (k, v) = process_header("Accept:text/html");
    assert_eq!(k, String::from("Accept"));
    assert_eq!(v, String::from("text/html"));

    // trim spaces
    let (k, v) = process_header(" Host : localhost ");
    assert_eq!(k, String::from("Host"));
    assert_eq!(v, String::from("localhost"));
}

#[test]
fn should_parse_string_to_request_struct() {
    let req_str =
        String::from("GET /search HTTP/1.1\r\nAccept:text/html\r\nHost:localhost\r\n\r\nhello");
    let request = Request::from(req_str);

    let expected = Request {
        method: Method::Get,
        protocol_version: ProtocolVersion::HTTP1_1,
        resource: Resource::Path(String::from("/search")),
        headers: {
            let mut headers = Headers::new();
            headers.insert("Accept".to_string(), "text/html".to_string());
            headers.insert("Host".to_string(), "localhost".to_string());
            headers
        },
        body: String::from("hello"),
    };

    assert_eq!(expected.method, request.method);
    assert_eq!(expected.protocol_version, request.protocol_version);
    assert_eq!(expected.resource, request.resource);
    assert_eq!(expected.headers, request.headers);
    assert_eq!(expected.body, request.body);
}

#[test]
fn every_method_is_read_by_its_name() {
    assert_eq!(Method::from("POST"), Method::Post);
    assert_eq!(Method::from("PUT"), Method::Put);
    assert_eq!(Method::from("PATCH"), Method::Patch);
    assert_eq!(Method::from("DELETE"), Method::Delete);
}

#[test]
fn method_names_are_case_sensitive() {
    assert_eq!(Method::from("get"), Method::Uninitialized);
    assert_eq!(Method::from("Get"), Method::Uninitialized);
    assert_eq!(Method::from(""), Method::Uninitialized);
    assert_eq!(Method::from("GETS"), Method::Uninitialized);
}

#[test]
fn versions_are_read_by_their_names() {
    assert_eq!(ProtocolVersion::from("HTTP/2"), ProtocolVersion::HTTP2);
    assert_eq!(ProtocolVersion::from("HTTP/1.0"), ProtocolVersion::Uninitialized);
    assert_eq!(ProtocolVersion::from("http/1.1"), ProtocolVersion::Uninitialized);
}

#[test]
fn request_line_fields_are_the_first_three_words() {
    let (m, r, v) = process_req_line("  DELETE\t/a/b   HTTP/2  trailing words");
    assert_eq!(m, Method::Delete);
    assert_eq!(r, Resource::Path("/a/b".to_string()));
    assert_eq!(v, ProtocolVersion::HTTP2);
}

#[test]
fn request_line_with_unknown_words_keeps_the_path() {
    let (m, r, v) = process_req_line("FETCH /x SPDY/3");
    assert_eq!(m, Method::Uninitialized);
    assert_eq!(r, Resource::Path("/x".to_string()));
    assert_eq!(v, ProtocolVersion::Uninitialized);
}

#[test]
fn request_line_needs_three_words() {
    assert!(parse_req_line("GET /only-two").is_none());
    assert!(parse_req_line("").is_none());
    assert!(parse_req_line("   ").is_none());
    assert!(parse_req_line("GET / HTTP/1.1").is_some());
}

#[test]
fn header_value_is_all_that_follows_the_first_colon() {
    let (k, v) = process_header("Host: localhost:8080");
    assert_eq!(k, "Host");
    assert_eq!(v, "localhost:8080");
}

#[test]
fn header_without_colon_is_a_name_without_value() {
    let (k, v) = process_header("  Lonely  ");
    assert_eq!(k, "Lonely");
    assert_eq!(v, "");
}

#[test]
fn header_with_nothing_around_the_colon() {
    let (k, v) = process_header(":");
    assert_eq!(k, "");
    assert_eq!(v, "");
    let (k, v) = process_header(" \t : \u{3000} ");
    assert_eq!(k, "");
    assert_eq!(v, "");
}

#[test]
fn header_keeps_inner_white_space() {
    let (k, v) = process_header("\tUser Agent :  a b  c \r");
    assert_eq!(k, "User Agent");
    assert_eq!(v, "a b  c");
}

#[test]
fn empty_text_is_the_blank_request() {
    let request = Request::from(String::new());
    assert_eq!(request.method, Method::Uninitialized);
    assert_eq!(request.protocol_version, ProtocolVersion::Uninitialized);
    assert_eq!(request.resource, Resource::Path(String::new()));
    assert!(request.headers.is_empty());
    assert_eq!(request.body, "");
}

#[test]
fn malformed_request_line_is_skipped() {
    let request = Request::from(String::from("HTTP\r\nHost: here\r\n\r\nbody"));
    assert_eq!(request.method, Method::Uninitialized);
    assert_eq!(request.protocol_version, ProtocolVersion::Uninitialized);
    assert_eq!(request.resource, Resource::Path(String::new()));
    assert_eq!(request.headers.get("Host"), Some("here"));
    assert_eq!(request.body, "body");
}

#[test]
fn later_header_replaces_earlier_one() {
    let request = Request::from(String::from("GET / HTTP/1.1\nA: 1\nB: 2\nA: 3\n"));
    assert_eq!(request.headers.len(), 2);
    assert_eq!(request.headers.get("A"), Some("3"));
    assert_eq!(request.headers.get("B"), Some("2"));
    assert_eq!(request.headers.name(0), "A");
    assert_eq!(request.headers.name(1), "B");
}

#[test]
fn last_body_line_wins() {
    let request = Request::from(String::from("POST /x HTTP/1.1\r\n\r\nfirst\r\nsecond"));
    assert_eq!(request.method, Method::Post);
    assert_eq!(request.body, "second");
}

#[test]
fn line_with_http_is_never_a_header() {
    let request = Request::from(String::from("Referer: HTTP rocks today\n"));
    assert!(request.headers.is_empty());
    assert_eq!(request.method, Method::Uninitialized);
    assert_eq!(request.resource, Resource::Path("HTTP".to_string()));
    assert_eq!(request.protocol_version, ProtocolVersion::Uninitialized);
}

#[test]
fn later_request_line_replaces_earlier_one() {
    let request = Request::from(String::from("GET /a HTTP/1.1\nPUT /b HTTP/2\n"));
    assert_eq!(request.method, Method::Put);
    assert_eq!(request.resource, Resource::Path("/b".to_string()));
    assert_eq!(request.protocol_version, ProtocolVersion::HTTP2);
}

#[test]
fn read_line_changes_one_field() {
    let mut request = Request::from(String::new());
    request.read_line("Accept: */*");
    assert_eq!(request.headers.get("Accept"), Some("*/*"));
    request.read_line("");
    request.read_line("payload");
    assert_eq!(request.body, "payload");
    request.read_line("GET /p HTTP/1.1");
    assert_eq!(request.method, Method::Get);
    assert_eq!(request.body, "payload");
    assert_eq!(request.headers.len(), 1);
}

#[test]
fn carriage_return_stays_on_a_last_line_without_line_feed() {
    let request = Request::from(String::from("a\r\nb\r"));
    assert_eq!(request.body, "b\r");
}
