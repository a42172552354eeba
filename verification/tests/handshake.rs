use base64::Engine;
use websocket_server::handshake::create_message::{create_response, response_for};
use websocket_server::handshake::parse_message::{
    convert_headers, parse_request, request_from_head, ParseError, ParsedHead,
};
use websocket_server::http_types::HttpStatus;
use websocket_server::utils::build_http::build_response;
use websocket_server::utils::generate_key::{generate_accept, generate_key, key_from_nonce};
use websocket_server::websocket_types::{Headers, RequestStruct, ResponseStruct};

const SAMPLE_KEY: &str = "dGhlIHNhbXBsZSBub25jZQ==";
const SAMPLE_ACCEPT: &str = "s3pPLMBiTxaQ9kYGzzhZRbK+xOo=";

fn sample_upgrade_request() -> String {
    [
        "GET /chat HTTP/1.1",
        "Host: server.example.com",
        "Upgrade: websocket",
        "Connection: Upgrade",
        "Sec-WebSocket-Key: dGhlIHNhbXBsZSBub25jZQ==",
        "Sec-WebSocket-Version: 13",
        "",
        "",
    ]
    .join("\r\n")
}

fn header_list(headers: &Headers) -> Vec<(String, String)> {
    (0..headers.len())
        .map(|i| (headers.name_at(i).clone(), headers.value_at(i).clone()))
        .collect()
}

fn owned(pairs: &[(&str, &str)]) -> Vec<(String, String)> {
    pairs.iter().map(|(n, v)| (n.to_string(), v.to_string())).collect()
}

#[test]
fn accept_of_sample_key() {
    assert_eq!(generate_accept(SAMPLE_KEY.to_string()), SAMPLE_ACCEPT);
}

#[test]
fn accept_differs_from_key_and_between_keys() {
    let accept = generate_accept("x3JJHMbDL1EzLkh9GBhXDw==".to_string());
    assert_eq!(accept, "HSmrc0sMlYUkAGmm5OPpG2HaGWk=");
    assert_ne!(accept, SAMPLE_ACCEPT);
}

#[test]
fn accept_of_empty_key() {
    assert_eq!(generate_accept(String::new()), "Kfh9QIsMVZcl6xEPYxPHzW8SZ8w=");
}

#[test]
fn key_from_nonce_is_base64() {
    assert_eq!(key_from_nonce(b"the sample nonce"), SAMPLE_KEY);
    assert_eq!(key_from_nonce(&[0u8; 16]), "AAAAAAAAAAAAAAAAAAAAAA==");
}

#[test]
fn generated_key_encodes_sixteen_bytes() {
    let key = generate_key();
    assert_eq!(key.len(), 24);
    let nonce = base64::engine::general_purpose::STANDARD.decode(&key).unwrap();
    assert_eq!(nonce.len(), 16);
    assert_ne!(key, generate_key());
}

#[test]
fn handshake_sample_request_is_accepted() {
    let request = parse_request(sample_upgrade_request()).unwrap();
    let response = create_response(request);
    assert_eq!(response.status, HttpStatus::SwitchingProtocols);
    assert_eq!(
        header_list(&response.headers),
        owned(&[
            ("Upgrade", "websocket"),
            ("Connection", "Upgrade"),
            ("Sec-WebSocket-Accept", SAMPLE_ACCEPT),
        ])
    );
}

#[test]
fn handshake_response_on_the_wire() {
    let request = parse_request(sample_upgrade_request()).unwrap();
    assert_eq!(
        build_response(create_response(request)),
        "HTTP/1.1 101 Switching Protocols\r\n\
         Upgrade: websocket\r\n\
         Connection: Upgrade\r\n\
         Sec-WebSocket-Accept: s3pPLMBiTxaQ9kYGzzhZRbK+xOo=\r\n\
         \r\n"
    );
}

#[test]
fn handshake_without_key_is_bad_request() {
    let mut request = RequestStruct::new();
    request.headers.insert("Upgrade".to_string(), "websocket".to_string());
    request.headers.insert("Connection".to_string(), "Upgrade".to_string());
    let response = create_response(request);
    assert_eq!(response.status, HttpStatus::BadRequest);
    assert_eq!(response.headers.len(), 0);
    assert_eq!(response.headers.get("Sec-WebSocket-Accept"), None);
    assert_eq!(build_response(response), "HTTP/1.1 400 Bad Request\r\n\r\n");
}

#[test]
fn handshake_key_name_is_compared_as_received() {
    let mut headers = Headers::new();
    headers.insert("sec-websocket-key".to_string(), SAMPLE_KEY.to_string());
    assert_eq!(response_for(&headers).status, HttpStatus::BadRequest);
    headers.insert("Sec-WebSocket-Key".to_string(), SAMPLE_KEY.to_string());
    let response = response_for(&headers);
    assert_eq!(response.status, HttpStatus::SwitchingProtocols);
    assert_eq!(response.headers.get("Sec-WebSocket-Accept"), Some(&SAMPLE_ACCEPT.to_string()));
}

#[test]
fn default_response_switches_protocols() {
    let response = ResponseStruct::default();
    assert_eq!(response.status, HttpStatus::SwitchingProtocols);
    assert_eq!(
        header_list(&response.headers),
        owned(&[("Upgrade", "websocket"), ("Connection", "Upgrade")])
    );
}

#[test]
fn new_request_is_empty() {
    let request = RequestStruct::new();
    assert_eq!(request.method, "");
    assert_eq!(request.uri, "");
    assert_eq!(request.headers.len(), 0);
}

#[test]
fn default_request_carries_upgrade_headers() {
    let request = RequestStruct::default();
    assert_eq!(request.method, "");
    assert_eq!(request.uri, "");
    let headers = header_list(&request.headers);
    assert_eq!(headers.len(), 4);
    assert_eq!(
        headers[..3],
        owned(&[
            ("Connection", "Upgrade"),
            ("Upgrade", "websocket"),
            ("Sec-WebSocket-Version", "13"),
        ])[..]
    );
    assert_eq!(headers[3].0, "Sec-WebSocket-Key");
    assert_eq!(headers[3].1.len(), 24);
}

#[test]
fn headers_insert_replaces_in_place() {
    let mut headers = Headers::new();
    assert_eq!(headers.insert("a".to_string(), "1".to_string()), None);
    assert_eq!(headers.insert("b".to_string(), "2".to_string()), None);
    assert_eq!(headers.insert("c".to_string(), "3".to_string()), None);
    assert_eq!(headers.insert("a".to_string(), "4".to_string()), Some("1".to_string()));
    assert_eq!(header_list(&headers), owned(&[("a", "4"), ("b", "2"), ("c", "3")]));
    assert_eq!(headers.len(), 3);
}

#[test]
fn headers_get_finds_exact_name() {
    let mut headers = Headers::new();
    headers.insert("Host".to_string(), "example".to_string());
    assert_eq!(headers.get("Host"), Some(&"example".to_string()));
    assert_eq!(headers.get("host"), None);
    assert_eq!(headers.get(""), None);
}

#[test]
fn parse_sample_request() {
    let request = parse_request(sample_upgrade_request()).unwrap();
    assert_eq!(request.method, "GET");
    assert_eq!(request.uri, "/chat");
    assert_eq!(
        header_list(&request.headers),
        owned(&[
            ("Host", "server.example.com"),
            ("Upgrade", "websocket"),
            ("Connection", "Upgrade"),
            ("Sec-WebSocket-Key", SAMPLE_KEY),
            ("Sec-WebSocket-Version", "13"),
        ])
    );
}

#[test]
fn parse_keeps_last_of_repeated_header() {
    let request =
        parse_request("GET / HTTP/1.1\r\nA: 1\r\nB: 2\r\nA: 3\r\n\r\n".to_string()).unwrap();
    assert_eq!(header_list(&request.headers), owned(&[("A", "3"), ("B", "2")]));
}

#[test]
fn parse_partial_request_is_invalid() {
    assert_eq!(
        parse_request("GET /chat HTTP/1.1\r\nHost: exa".to_string()),
        Err(ParseError::InvalidRequest)
    );
    assert_eq!(parse_request(String::new()), Err(ParseError::InvalidRequest));
    assert_eq!(ParseError::InvalidRequest.message(), "invalid_request");
}

#[test]
fn parse_garbage_is_unexpected() {
    assert_eq!(parse_request("\u{1}\u{2} nonsense\r\n\r\n".to_string()), Err(ParseError::Unexpected));
    assert_eq!(ParseError::Unexpected.message(), "unexpected");
}

#[test]
fn parse_rejects_more_headers_than_allowed() {
    let mut text = String::from("GET / HTTP/1.1\r\n");
    for i in 0..17 {
        text.push_str(&format!("H{}: v\r\n", i));
    }
    text.push_str("\r\n");
    assert_eq!(parse_request(text), Err(ParseError::Unexpected));

    let mut text = String::from("GET / HTTP/1.1\r\n");
    for i in 0..16 {
        text.push_str(&format!("H{}: v\r\n", i));
    }
    text.push_str("\r\n");
    assert_eq!(parse_request(text).unwrap().headers.len(), 16);
}

#[test]
fn request_from_head_needs_method_and_path() {
    let complete = ParsedHead::Complete {
        method: Some("GET".to_string()),
        path: Some("/".to_string()),
        headers: vec![("Host".to_string(), b"h".to_vec())],
    };
    let request = request_from_head(complete).unwrap();
    assert_eq!(request.method, "GET");
    assert_eq!(request.uri, "/");
    assert_eq!(header_list(&request.headers), owned(&[("Host", "h")]));

    let no_method = ParsedHead::Complete { method: None, path: Some("/".to_string()), headers: vec![] };
    assert_eq!(request_from_head(no_method), Err(ParseError::Unexpected));
    let no_path = ParsedHead::Complete { method: Some("GET".to_string()), path: None, headers: vec![] };
    assert_eq!(request_from_head(no_path), Err(ParseError::Unexpected));
    assert_eq!(request_from_head(ParsedHead::Partial), Err(ParseError::InvalidRequest));
    assert_eq!(request_from_head(ParsedHead::Invalid), Err(ParseError::Unexpected));
}

#[test]
fn convert_headers_reads_values_leniently() {
    let raw = vec![
        ("X-Text".to_string(), b"plain".to_vec()),
        ("X-Bytes".to_string(), vec![0x61, 0xff, 0x62]),
    ];
    assert_eq!(
        header_list(&convert_headers(&raw)),
        owned(&[("X-Text", "plain"), ("X-Bytes", "a\u{fffd}b")])
    );
}

#[test]
fn status_lines() {
    assert_eq!(HttpStatus::SwitchingProtocols.as_str(), "HTTP/1.1 101 Switching Protocols");
    assert_eq!(HttpStatus::BadRequest.as_str(), "HTTP/1.1 400 Bad Request");
    assert_eq!(HttpStatus::Unauthorized.as_str(), "HTTP/1.1 401 Unauthorized");
    assert_eq!(HttpStatus::Forbidden.as_str(), "HTTP/1.1 403 Forbidden");
    assert_eq!(HttpStatus::NotFound.as_str(), "HTTP/1.1 404 Not Found");
    assert_eq!(HttpStatus::InternalServerError.as_str(), "HTTP/1.1 500 Internal Server Error");
}

#[test]
fn build_response_writes_headers_in_order() {
    let mut headers = Headers::new();
    headers.insert("B".to_string(), "2".to_string());
    headers.insert("A".to_string(), "1".to_string());
    let response = ResponseStruct { status: HttpStatus::NotFound, headers };
    assert_eq!(build_response(response), "HTTP/1.1 404 Not Found\r\nB: 2\r\nA: 1\r\n\r\n");
}
