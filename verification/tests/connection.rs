use rand::SeedableRng;
use websocketz::error::{
    Error, FragmentationError, ProtocolError, ReadError, WriteError,
};
use websocketz::{CloseCode, CloseFrame, Message, Step, WebSocketCore};

fn seeded(n: u64) -> rand::rngs::StdRng {
    rand::rngs::StdRng::seed_from_u64(n)
}

fn client() -> WebSocketCore<rand::rngs::StdRng> {
    WebSocketCore::client(seeded(1), 1024, 1024, 1024)
}

fn server() -> WebSocketCore<rand::rngs::StdRng> {
    WebSocketCore::server(seeded(2), 1024, 1024, 1024)
}

/// Drives the core until it surfaces a message, writing auto-answers to
/// `responses`.
fn next_message(
    core: &mut WebSocketCore<rand::rngs::StdRng>,
    responses: &mut Vec<Vec<u8>>,
) -> Option<Result<Message, Error>> {
    loop {
        match core.next_step() {
            Step::Read => return None,
            Step::Again => continue,
            Step::Message(m) => return Some(Ok(m)),
            Step::Write(v) => {
                responses.push(v);
                continue;
            }
            Step::WriteClose(v) => {
                responses.push(v);
                return None;
            }
            Step::Fail(e) => return Some(Err(e)),
        }
    }
}

fn protocol_error_of(frame_bytes: &[u8]) -> Error {
    let mut core = client();
    core.feed(&frame_bytes.to_vec()).unwrap();
    let mut responses = Vec::new();
    next_message(&mut core, &mut responses).unwrap().unwrap_err()
}

#[test]
fn surfaces_unmasked_text() {
    // Unmasked server-to-client text "Hi" surfaces at the client.
    let mut core = client();
    core.feed(&vec![0x81, 0x02, 0x48, 0x69]).unwrap();
    let mut responses = Vec::new();
    let message = next_message(&mut core, &mut responses).unwrap().unwrap();
    assert_eq!(message, Message::Text(b"Hi".to_vec()));
    assert_eq!(core.framable(), 0);
}

#[test]
fn surfaces_masked_text_at_server() {
    // Masked client-to-server text "Hi" surfaces at the server unmasked.
    let mut core = server();
    core.feed(&vec![0x81, 0x82, 0x12, 0x34, 0x56, 0x78, 0x48 ^ 0x12, 0x69 ^ 0x34])
        .unwrap();
    let mut responses = Vec::new();
    let message = next_message(&mut core, &mut responses).unwrap().unwrap();
    assert_eq!(message, Message::Text(b"Hi".to_vec()));
    assert_eq!(core.framable(), 0);
}

#[test]
fn invalid_close_frame() {
    // A close frame with a single payload byte is malformed.
    let error = protocol_error_of(&[0x88, 0x01, 0x37]);
    assert!(matches!(
        error,
        Error::Read(ReadError::Protocol(ProtocolError::InvalidCloseFrame))
    ));
}

#[test]
fn invalid_close_code() {
    // Close code 1005 may not be sent by an endpoint.
    let error = protocol_error_of(&[0x88, 0x02, 0x03, 0xED]);
    assert!(matches!(
        error,
        Error::Read(ReadError::Protocol(ProtocolError::InvalidCloseCode))
    ));
}

#[test]
fn invalid_utf8_close() {
    // Close code 1000 followed by an invalid UTF-8 byte.
    let error = protocol_error_of(&[0x88, 0x03, 0x03, 0xE8, 0xFF]);
    assert!(matches!(
        error,
        Error::Read(ReadError::Protocol(ProtocolError::InvalidUTF8))
    ));
}

#[test]
fn invalid_utf8_text() {
    let error = protocol_error_of(&[0x81, 0x01, 0xFF]);
    assert!(matches!(
        error,
        Error::Read(ReadError::Protocol(ProtocolError::InvalidUTF8))
    ));
}

#[test]
fn invalid_fragment() {
    // A new data message while a fragmented message is in progress.
    let error = protocol_error_of(&[0x01, 0x01, 0x41, 0x82, 0x01, 0x42]);
    assert!(matches!(
        error,
        Error::Read(ReadError::Protocol(ProtocolError::InvalidFragment))
    ));
}

#[test]
fn invalid_continuation_frame() {
    // A continuation without a preceding fragmented message.
    let error = protocol_error_of(&[0x80, 0x01, 0x41]);
    assert!(matches!(
        error,
        Error::Read(ReadError::Protocol(ProtocolError::InvalidContinuationFrame))
    ));
}

#[test]
fn invalid_fragment_size() {
    let mut core = client();
    let error = core
        .send_fragmented(&Message::Text(b"test".to_vec()), 0)
        .unwrap_err();
    assert!(matches!(
        error,
        Error::Fragmentation(FragmentationError::InvalidFragmentSize)
    ));
}

#[test]
fn only_text_and_binary_can_be_fragmented() {
    let mut core = client();

    let error = core
        .send_fragmented(&Message::Ping(b"ping".to_vec()), 16)
        .unwrap_err();
    assert!(matches!(
        error,
        Error::Fragmentation(FragmentationError::CanNotBeFragmented)
    ));

    let error = core
        .send_fragmented(&Message::Pong(b"pong".to_vec()), 16)
        .unwrap_err();
    assert!(matches!(
        error,
        Error::Fragmentation(FragmentationError::CanNotBeFragmented)
    ));

    let error = core
        .send_fragmented(
            &Message::Close(Some(CloseFrame::new(CloseCode::Normal, b"close".to_vec()))),
            16,
        )
        .unwrap_err();
    assert!(matches!(
        error,
        Error::Fragmentation(FragmentationError::CanNotBeFragmented)
    ));
}

#[test]
fn client_messages_reach_the_server() {
    let mut client = client();
    let mut server = server();
    let mut responses = Vec::new();

    for payload in [b"Hello, world!".to_vec(), (0u8..200).collect::<Vec<u8>>()] {
        let bytes = client.send(&Message::Binary(payload.clone())).unwrap();
        server.feed(&bytes).unwrap();
        let message = next_message(&mut server, &mut responses).unwrap().unwrap();
        assert_eq!(message, Message::Binary(payload));
    }

    let bytes = client.send(&Message::Text(b"over the wire".to_vec())).unwrap();
    server.feed(&bytes).unwrap();
    let message = next_message(&mut server, &mut responses).unwrap().unwrap();
    assert_eq!(message, Message::Text(b"over the wire".to_vec()));
    assert!(responses.is_empty());
}

#[test]
fn fragmented_messages_are_reassembled() {
    let mut client = client();
    let mut server = server();
    let mut responses = Vec::new();

    let payload: Vec<u8> = (0u8..100).collect();
    let bytes = client
        .send_fragmented(&Message::Binary(payload.clone()), 16)
        .unwrap();
    server.feed(&bytes).unwrap();
    let message = next_message(&mut server, &mut responses).unwrap().unwrap();
    assert_eq!(message, Message::Binary(payload));

    let bytes = client
        .send_fragmented(&Message::Text(b"fragmented text message".to_vec()), 4)
        .unwrap();
    server.feed(&bytes).unwrap();
    let message = next_message(&mut server, &mut responses).unwrap().unwrap();
    assert_eq!(message, Message::Text(b"fragmented text message".to_vec()));
}

#[test]
fn auto_pong_echoes_the_ping() {
    // The client pings; the server answers with a pong carrying the same
    // payload without surfacing the ping; the client surfaces the pong.
    let mut client = client();
    let mut server = server();

    let ping_bytes = client.send(&Message::Ping(b"ping".to_vec())).unwrap();
    server.feed(&ping_bytes).unwrap();

    let mut server_writes = Vec::new();
    assert!(next_message(&mut server, &mut server_writes).is_none());
    assert_eq!(server_writes.len(), 1);

    client.feed(&server_writes[0]).unwrap();
    let mut client_writes = Vec::new();
    let message = next_message(&mut client, &mut client_writes).unwrap().unwrap();
    assert_eq!(message, Message::Pong(b"ping".to_vec()));
}

#[test]
fn auto_close_answers_and_closes() {
    // The client sends Close(Normal, "close"); the server echoes the
    // close and is closed; the client surfaces the close answer and,
    // being closed, refuses further sends.
    let mut client = client();
    let mut server = server();

    let close_bytes = client
        .send(&Message::Close(Some(CloseFrame::new(
            CloseCode::Normal,
            b"close".to_vec(),
        ))))
        .unwrap();

    server.feed(&close_bytes).unwrap();
    let mut server_writes = Vec::new();
    assert!(next_message(&mut server, &mut server_writes).is_none());
    assert_eq!(server_writes.len(), 1);

    // The server is closed: further sends fail.
    let error = server.send(&Message::Text(b"test".to_vec())).unwrap_err();
    assert!(matches!(error, WriteError::ConnectionClosed));

    // The client surfaces the echoed close frame.
    client.feed(&server_writes[0]).unwrap();
    let mut client_writes = Vec::new();
    let message = next_message(&mut client, &mut client_writes).unwrap().unwrap();
    match message {
        Message::Close(Some(frame)) => {
            assert_eq!(frame.code(), CloseCode::Normal);
            assert_eq!(frame.reason(), &b"close".to_vec());
        }
        other => panic!("Unexpected message: {other:?}"),
    }

    // Nothing more is buffered: the stream has ended for the client.
    assert!(matches!(client.next_step(), Step::Read));

    // The client is closed too: further sends fail.
    let error = client.send(&Message::Text(b"test".to_vec())).unwrap_err();
    assert!(matches!(error, WriteError::ConnectionClosed));
}

#[test]
fn pings_pass_through_without_auto_pong() {
    let mut core = client();
    core.set_auto_pong(false);
    core.feed(&vec![0x89, 0x02, 0x68, 0x69]).unwrap();
    let mut responses = Vec::new();
    let message = next_message(&mut core, &mut responses).unwrap().unwrap();
    assert_eq!(message, Message::Ping(b"hi".to_vec()));
    assert!(responses.is_empty());
}

#[test]
fn close_passes_through_without_auto_close() {
    let mut core = client();
    core.set_auto_close(false);
    core.feed(&vec![0x88, 0x00]).unwrap();
    let mut responses = Vec::new();
    let message = next_message(&mut core, &mut responses).unwrap().unwrap();
    assert_eq!(message, Message::Close(None));
    assert!(responses.is_empty());
}

#[test]
fn read_buffer_overflow_is_refused() {
    let mut core = WebSocketCore::client(seeded(3), 4, 1024, 1024);
    let error = core.feed(&vec![0u8; 5]).unwrap_err();
    assert!(matches!(error, ReadError::ReadBufferTooSmall));
}

#[test]
fn fragments_buffer_overflow_is_refused() {
    // A fragmented message larger than the fragments buffer fails.
    let mut core = WebSocketCore::client(seeded(4), 1024, 1024, 2);
    core.feed(&vec![0x01, 0x03, 0x41, 0x42, 0x43]).unwrap();
    let mut responses = Vec::new();
    let error = next_message(&mut core, &mut responses).unwrap().unwrap_err();
    assert!(matches!(error, Error::Read(ReadError::FragmentsBufferTooSmall)));
}

#[test]
fn send_fails_when_the_frame_does_not_fit() {
    let mut core = WebSocketCore::client(seeded(5), 1024, 8, 1024);
    let error = core
        .send(&Message::Binary(vec![0u8; 64]))
        .unwrap_err();
    assert!(matches!(
        error,
        WriteError::WriteFrame(websocketz::error::FrameEncodeError::BufferTooSmall)
    ));
}

#[test]
fn handshake_response_fails_when_it_does_not_fit() {
    let mut core = WebSocketCore::server(seeded(6), 1024, 16, 1024);
    let accept = websocketz::generate_sec_accept(&b"dGhlIHNhbXBsZSBub25jZQ==".to_vec());
    let error = core
        .server_handshake_response(&accept, &websocketz::options::AcceptOptions::default())
        .unwrap_err();
    assert!(matches!(
        error,
        Error::Write(WriteError::WriteHttp(
            websocketz::error::HttpEncodeError::BufferTooSmall
        ))
    ));
}
