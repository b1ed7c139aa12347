use saf_relay::conduit::{get_json, get_request_type, get_url_part, stringify_request, structure_response};

#[test]
fn stringify_reads_bytes_as_text() {
    assert_eq!(stringify_request(b"GET / HTTP/1.1"), "GET / HTTP/1.1");
    assert_eq!(stringify_request(&[b'a', 0xff, b'b']), "a\u{fffd}b");
}

#[test]
fn request_type_and_url_come_from_the_first_line() {
    let request = b"POST /json_rpc HTTP/1.1\r\nHost: localhost\r\n\r\n{}";
    assert_eq!(get_request_type(request), Some("POST".to_string()));
    assert_eq!(get_url_part(request), Some("/json_rpc".to_string()));
    let spaced = b"  GET \t /get_info  HTTP/1.1\n";
    assert_eq!(get_request_type(spaced), Some("GET".to_string()));
    assert_eq!(get_url_part(spaced), Some("/get_info".to_string()));
}

#[test]
fn missing_words_give_none() {
    assert_eq!(get_request_type(b""), None);
    assert_eq!(get_url_part(b""), None);
    assert_eq!(get_request_type(b"\r\nGET / HTTP/1.1"), None);
    assert_eq!(get_url_part(b"GET\r\n/path"), None);
}

#[test]
fn response_is_framed_with_its_length() {
    assert_eq!(
        structure_response(b"{\"a\":1}"),
        "HTTP/1.1 200 OK\r\nAccept-Ranges:bytes\r\nContent-Length:7\r\nContent-Type:application/json\r\nServer:Epee-based\r\n\r\n{\"a\":1}"
    );
    assert!(structure_response(b"").contains("Content-Length:0\r\n"));
    assert!(structure_response(b"{\"status\":\"OK\"}").contains("Content-Length:15\r\n"));
    assert!(structure_response("\u{e9}".as_bytes()).contains("Content-Length:2\r\n"));
    assert!(structure_response(&[0xff]).ends_with("Content-Length:3\r\nContent-Type:application/json\r\nServer:Epee-based\r\n\r\n\u{fffd}"));
}

#[test]
fn json_is_the_braced_part() {
    let mut request = b"POST /json_rpc HTTP/1.1\r\nContent-Type: application/json\r\n\r\n{\"jsonrpc\":\"2.0\",\"params\":{}}".to_vec();
    request.extend_from_slice(&[0u8; 16]);
    assert_eq!(get_json(&request), Some(b"{\"jsonrpc\":\"2.0\",\"params\":{}}".to_vec()));
    assert_eq!(get_json(b"GET /get_info HTTP/1.1\r\n\r\n"), None);
}
