use http_server::handler::{Pending, Step};
use http_server::server::{handle_http_request, Server, READ_SIZE, WORKERS};

#[test]
fn server_keeps_its_address() {
    let server = Server::new("127.0.0.1:3000");
    assert_eq!(server.socket_addr(), "127.0.0.1:3000");
}

#[test]
fn sizes_are_fixed() {
    assert_eq!(WORKERS, 4);
    assert_eq!(READ_SIZE, 1024);
}

#[test]
fn bytes_of_a_request_are_dispatched() {
    let step = handle_http_request(b"GET /api/x HTTP/1.1\r\nHost:h\r\n\r\n".to_vec());
    match step {
        Some(Step::Reply(response)) => {
            assert_eq!(response.status_code(), "200");
            assert_eq!(response.headers(), "Content-Type:application/json\r\n");
        }
        other => panic!("{:?}", other),
    }
}

#[test]
fn a_padded_buffer_is_read_too() {
    let mut buffer = vec![0u8; READ_SIZE];
    let text = b"GET /style.css HTTP/1.1\r\n\r\n";
    buffer[..text.len()].copy_from_slice(text);
    match handle_http_request(buffer) {
        Some(Step::Load { file, pause, pending }) => {
            assert_eq!(file, "style.css");
            assert_eq!(pause, 0);
            assert!(matches!(pending, Pending::Asset(name) if name == "style.css"));
        }
        other => panic!("{:?}", other),
    }
}

#[test]
fn bytes_that_are_no_text_give_nothing() {
    assert!(handle_http_request(vec![b'G', 0xff, 0xfe]).is_none());
    assert!(handle_http_request(vec![0xc3]).is_none());
    assert!(handle_http_request(vec![0xed, 0xa0, 0x80]).is_none());
}

#[test]
fn text_beyond_ascii_is_decoded() {
    match handle_http_request("GET /caf\u{e9}.html HTTP/1.1".as_bytes().to_vec()) {
        Some(Step::Load { file, .. }) => assert_eq!(file, "caf\u{e9}.html"),
        other => panic!("{:?}", other),
    }
}

#[test]
fn no_bytes_find_nothing() {
    match handle_http_request(Vec::new()) {
        Some(Step::Load { file, .. }) => assert_eq!(file, "404.html"),
        other => panic!("{:?}", other),
    }
}
