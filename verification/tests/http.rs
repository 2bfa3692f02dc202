use websocketz::error::{HttpDecodeError, HttpParseError};
use websocketz::http::{
    header_value, Header, InRequestCodec, InResponseCodec, OutRequest, OutRequestCodec,
    OutResponse, OutResponseCodec,
};

const OK_RESPONSE: &[u8] =
    b"HTTP/1.1 200 OK\r\nContent-Type: text/plain\r\nConnection: close\r\n\r\n\0\0\0\0\0\0";

const OK_REQUEST: &[u8] =
    b"GET /index.html HTTP/1.1\r\nHost: example.com\r\nUser-Agent: test-agent\r\nAccept: text/html\r\n\r\n\0\0\0\0\0\0";

const OK_REQUEST_ENCODED: &[u8] =
    b"GET /index.html HTTP/1.1\r\nHost: example.com\r\nUser-Agent: test-agent\r\nAccept: text/html\r\n\r\n";

const OK_RESPONSE_ENCODED: &[u8] =
    b"HTTP/1.1 200 OK\r\nContent-Type: text/plain\r\nConnection: close\r\n\r\n";

const SWITCHING_PROTOCOLS_RESPONSE: &[u8] =
    b"HTTP/1.1 101 Switching Protocols\r\nContent-Type: text/plain\r\nConnection: close\r\n\r\n";

fn request_headers() -> Vec<Header> {
    vec![
        Header { name: b"Host".to_vec(), value: b"example.com".to_vec() },
        Header { name: b"User-Agent".to_vec(), value: b"test-agent".to_vec() },
    ]
}

fn request_additional_headers() -> Vec<Header> {
    vec![Header { name: b"Accept".to_vec(), value: b"text/html".to_vec() }]
}

fn response_headers() -> Vec<Header> {
    vec![Header { name: b"Content-Type".to_vec(), value: b"text/plain".to_vec() }]
}

fn response_additional_headers() -> Vec<Header> {
    vec![Header { name: b"Connection".to_vec(), value: b"close".to_vec() }]
}

#[test]
fn http_ok() {
    // Decode a complete response.
    let codec = InResponseCodec::<2>::new();
    let (response, len) = codec.decode(&OK_RESPONSE.to_vec()).unwrap().unwrap();

    assert_eq!(response.code(), 200);
    assert_eq!(
        header_value(response.headers(), &b"content-type".to_vec()),
        Some(b"text/plain".to_vec())
    );
    assert_eq!(
        header_value(response.headers(), &b"Connection".to_vec()),
        Some(b"close".to_vec())
    );
    assert_eq!(response.headers().len(), 2);
    assert_eq!(len, 64);

    // Decode a complete request.
    let codec = InRequestCodec::<3>::new();
    let (request, len) = codec.decode(&OK_REQUEST.to_vec()).unwrap().unwrap();

    assert_eq!(
        header_value(request.headers(), &b"Host".to_vec()),
        Some(b"example.com".to_vec())
    );
    assert_eq!(
        header_value(request.headers(), &b"User-agent".to_vec()),
        Some(b"test-agent".to_vec())
    );
    assert_eq!(
        header_value(request.headers(), &b"accept".to_vec()),
        Some(b"text/html".to_vec())
    );
    assert_eq!(len, 90);
    assert_eq!(request.headers().len(), 3);

    // Encode a request.
    let request = OutRequest::get_unchecked(
        b"/index.html".to_vec(),
        request_headers(),
        request_additional_headers(),
    );
    let codec = OutRequestCodec::new();
    let out = codec.encode(&request, 1024).unwrap();
    assert_eq!(out.len(), OK_REQUEST_ENCODED.len());
    assert_eq!(out, OK_REQUEST_ENCODED.to_vec());

    // Encode a response.
    let response = OutResponse::new(
        b"200".to_vec(),
        b"OK".to_vec(),
        response_headers(),
        response_additional_headers(),
    );
    let codec = OutResponseCodec::new();
    let out = codec.encode(&response, 1024).unwrap();
    assert_eq!(out.len(), OK_RESPONSE_ENCODED.len());
    assert_eq!(out, OK_RESPONSE_ENCODED.to_vec());
}

#[test]
fn http_too_many_headers() {
    let codec = InResponseCodec::<1>::new();
    let error = codec.decode(&OK_RESPONSE.to_vec()).unwrap_err();
    assert!(matches!(
        error,
        HttpDecodeError::Parse(HttpParseError::TooManyHeaders)
    ));

    let codec = InRequestCodec::<2>::new();
    let error = codec.decode(&OK_REQUEST.to_vec()).unwrap_err();
    assert!(matches!(
        error,
        HttpDecodeError::Parse(HttpParseError::TooManyHeaders)
    ));
}

#[test]
fn http_partial() {
    let codec = InResponseCodec::<2>::new();
    let result = codec.decode(&OK_RESPONSE[..16].to_vec()).unwrap();
    assert!(result.is_none());

    let codec = InRequestCodec::<3>::new();
    let result = codec.decode(&OK_REQUEST[..16].to_vec()).unwrap();
    assert!(result.is_none());
}

#[test]
fn http_buffer_too_small() {
    let request = OutRequest::get_unchecked(
        b"/index.html".to_vec(),
        request_headers(),
        request_additional_headers(),
    );
    let codec = OutRequestCodec::new();
    let error = codec.encode(&request, 10).unwrap_err();
    assert!(matches!(
        error,
        websocketz::error::HttpEncodeError::BufferTooSmall
    ));

    let response = OutResponse::new(
        b"200".to_vec(),
        b"OK".to_vec(),
        response_headers(),
        response_additional_headers(),
    );
    let codec = OutResponseCodec::new();
    let error = codec.encode(&response, 10).unwrap_err();
    assert!(matches!(
        error,
        websocketz::error::HttpEncodeError::BufferTooSmall
    ));
}

#[test]
fn ok_switching_protocols() {
    let response =
        OutResponse::switching_protocols(response_headers(), response_additional_headers());

    let codec = OutResponseCodec::new();

    let out = codec.encode(&response, 1024).unwrap();

    assert_eq!(out.len(), SWITCHING_PROTOCOLS_RESPONSE.len());
    assert_eq!(out, SWITCHING_PROTOCOLS_RESPONSE.to_vec());
}

#[test]
fn write_appends_within_capacity() {
    let mut dst = b"abc".to_vec();
    assert!(websocketz::http::write(&mut dst, 5, &b"de".to_vec()).is_ok());
    assert_eq!(dst, b"abcde".to_vec());

    let error = websocketz::http::write(&mut dst, 6, &b"fg".to_vec()).unwrap_err();
    assert!(matches!(
        error,
        websocketz::error::HttpEncodeError::BufferTooSmall
    ));
    assert_eq!(dst, b"abcde".to_vec());
}

#[test]
fn malformed_request_line_is_invalid() {
    // No spaces in the request line: the head is complete but malformed.
    let codec = InRequestCodec::<4>::new();
    let error = codec.decode(&b"NONSENSE\r\n\r\n".to_vec()).unwrap_err();
    assert!(matches!(error, HttpDecodeError::Parse(HttpParseError::Invalid)));

    // A bad version tag is malformed too.
    let codec = InRequestCodec::<4>::new();
    let error = codec.decode(&b"GET / FTP/1.1\r\n\r\n".to_vec()).unwrap_err();
    assert!(matches!(error, HttpDecodeError::Parse(HttpParseError::Invalid)));
}
