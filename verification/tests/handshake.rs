use rand::SeedableRng;
use websocketz::error::{Error, HandshakeError};
use websocketz::options::{AcceptOptions, ConnectOptions};
use websocketz::{generate_sec_accept, WebSocketCore};

fn seeded(n: u64) -> rand::rngs::StdRng {
    rand::rngs::StdRng::seed_from_u64(n)
}

fn client_core() -> WebSocketCore<rand::rngs::StdRng> {
    WebSocketCore::client(seeded(1), 1024, 1024, 1024)
}

fn server_core() -> WebSocketCore<rand::rngs::StdRng> {
    WebSocketCore::server(seeded(2), 1024, 1024, 1024)
}

#[test]
fn sec_accept_known_vector() {
    // The sample key of RFC 6455: the accept value is determined by the key.
    let key = b"dGhlIHNhbXBsZSBub25jZQ==".to_vec();
    let accept = generate_sec_accept(&key);
    assert_eq!(accept, b"s3pPLMBiTxaQ9kYGzzhZRbK+xOo=".to_vec());

    // The same key yields the same accept value again.
    let again = generate_sec_accept(&key);
    assert_eq!(accept, again);
}

#[test]
fn sec_key_is_base64_of_16_bytes() {
    // 16 random bytes encode to 24 base64 bytes; different draws differ.
    let mut a_rng = seeded(10);
    let mut b_rng = seeded(11);
    let a = websocketz::generate_sec_key(&mut a_rng);
    let b = websocketz::generate_sec_key(&mut b_rng);
    assert_eq!(a.len(), 24);
    assert_eq!(b.len(), 24);
    assert_ne!(a, b);
}

fn response_error(response: &str) -> Error {
    let mut core = client_core();
    let key = b"dGhlIHNhbXBsZSBub25jZQ==".to_vec();
    core.feed(&response.as_bytes().to_vec()).unwrap();
    core.client_handshake_response::<16>(&key).unwrap_err()
}

#[test]
fn invalid_status_code() {
    let response = "HTTP/1.1 200 OK\r\n\
        Upgrade: websocket\r\n\
        Connection: upgrade\r\n\
        Sec-WebSocket-Accept: dGhlIHNhbXBsZSBub25jZQ==\r\n\
        \r\n";
    assert!(matches!(
        response_error(response),
        Error::Handshake(HandshakeError::InvalidStatusCode)
    ));
}

#[test]
fn invalid_upgrade_header() {
    let response = "HTTP/1.1 101 Switching Protocols\r\n\
        Upgrade: not-websocket\r\n\
        Connection: upgrade\r\n\
        Sec-WebSocket-Accept: dGhlIHNhbXBsZSBub25jZQ==\r\n\
        \r\n";
    assert!(matches!(
        response_error(response),
        Error::Handshake(HandshakeError::MissingOrInvalidUpgrade)
    ));
}

#[test]
fn invalid_connection_header() {
    let response = "HTTP/1.1 101 Switching Protocols\r\n\
        Upgrade: websocket\r\n\
        Connection: not-upgrade\r\n\
        Sec-WebSocket-Accept: dGhlIHNhbXBsZSBub25jZQ==\r\n\
        \r\n";
    assert!(matches!(
        response_error(response),
        Error::Handshake(HandshakeError::MissingOrInvalidConnection)
    ));
}

#[test]
fn missing_accept_header() {
    let response = "HTTP/1.1 101 Switching Protocols\r\n\
        Upgrade: websocket\r\n\
        Connection: upgrade\r\n\
        \r\n";
    assert!(matches!(
        response_error(response),
        Error::Handshake(HandshakeError::MissingOrInvalidAccept)
    ));
}

#[test]
fn invalid_accept_header() {
    let response = "HTTP/1.1 101 Switching Protocols\r\n\
        Upgrade: websocket\r\n\
        Connection: upgrade\r\n\
        Sec-WebSocket-Accept: dGhlIHNhbXBsZSBub25jZQ==\r\n\
        \r\n";
    assert!(matches!(
        response_error(response),
        Error::Handshake(HandshakeError::MissingOrInvalidAccept)
    ));
}

fn request_error(request: &str) -> Error {
    let mut core = server_core();
    core.feed(&request.as_bytes().to_vec()).unwrap();
    core.server_handshake_request::<16>().unwrap_err()
}

#[test]
fn wrong_http_method() {
    let request = "POST / HTTP/1.1\r\n\
        Host: localhost\r\n\
        Upgrade: websocket\r\n\
        Connection: upgrade\r\n\
        Sec-WebSocket-Key: dGhlIHNhbXBsZSBub25jZQ==\r\n\
        Sec-WebSocket-Version: 13\r\n\
        \r\n";
    assert!(matches!(
        request_error(request),
        Error::Handshake(HandshakeError::WrongHttpMethod)
    ));
}

#[test]
fn wrong_http_version() {
    let request = "GET / HTTP/1.0\r\n\
        Host: localhost\r\n\
        Upgrade: websocket\r\n\
        Connection: upgrade\r\n\
        Sec-WebSocket-Key: dGhlIHNhbXBsZSBub25jZQ==\r\n\
        Sec-WebSocket-Version: 13\r\n\
        \r\n";
    assert!(matches!(
        request_error(request),
        Error::Handshake(HandshakeError::WrongHttpVersion)
    ));
}

#[test]
fn invalid_sec_version() {
    let request = "GET / HTTP/1.1\r\n\
        Host: localhost\r\n\
        Upgrade: websocket\r\n\
        Connection: upgrade\r\n\
        Sec-WebSocket-Key: dGhlIHNhbXBsZSBub25jZQ==\r\n\
        Sec-WebSocket-Version: 12\r\n\
        \r\n";
    assert!(matches!(
        request_error(request),
        Error::Handshake(HandshakeError::MissingOrInvalidSecVersion)
    ));
}

#[test]
fn missing_sec_key() {
    let request = "GET / HTTP/1.1\r\n\
        Host: localhost\r\n\
        Upgrade: websocket\r\n\
        Connection: upgrade\r\n\
        Sec-WebSocket-Version: 13\r\n\
        \r\n";
    assert!(matches!(
        request_error(request),
        Error::Handshake(HandshakeError::MissingSecKey)
    ));
}

#[test]
fn handshake_full_exchange() {
    // The client builds the upgrade request, the server validates it and
    // answers, and the client validates the answer against its key.
    let mut client = client_core();
    let mut server = server_core();

    let options = ConnectOptions::new(b"/ws".to_vec()).unwrap();
    let (request_bytes, sec_key) = client.client_handshake_request(&options).unwrap();

    server.feed(&request_bytes).unwrap();
    let (request, accept) = server.server_handshake_request::<16>().unwrap().unwrap();
    assert_eq!(request.method(), &b"GET".to_vec());
    assert_eq!(request.path(), &b"/ws".to_vec());

    let response_bytes = server
        .server_handshake_response(&accept, &AcceptOptions::default())
        .unwrap();

    client.feed(&response_bytes).unwrap();
    let response = client.client_handshake_response::<16>(&sec_key).unwrap().unwrap();
    assert_eq!(response.code(), 101);
}

#[test]
fn handshake_incomplete_asks_for_more() {
    let mut core = client_core();
    let key = b"dGhlIHNhbXBsZSBub25jZQ==".to_vec();
    core.feed(&b"HTTP/1.1 101 Swi".to_vec()).unwrap();
    assert!(core.client_handshake_response::<16>(&key).unwrap().is_none());
}
