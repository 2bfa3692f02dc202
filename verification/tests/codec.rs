use rand::SeedableRng;
use websocketz::error::FrameDecodeError;
use websocketz::{FramesCodec, Frame, Header, Message, OpCode};

fn seeded() -> rand::rngs::StdRng {
    rand::rngs::StdRng::seed_from_u64(7)
}

#[test]
fn reserved_bits_not_zero() {
    let src = vec![0b11111111u8, 0b00000000];

    let codec = FramesCodec::new(());

    let error = codec.decode(&src).unwrap_err();

    assert!(matches!(error, FrameDecodeError::ReservedBitsNotZero));
}

#[test]
fn unmasked_frame_from_client() {
    // FIN=1, Text frame (opcode=0x1); MASK=0, payload length=2; payload "Hi"
    let src = vec![0x81u8, 0x02, 0x48, 0x69];

    let codec = FramesCodec::new(()).into_server();

    let error = codec.decode(&src).unwrap_err();

    assert!(matches!(error, FrameDecodeError::UnmaskedFrameFromClient));
}

#[test]
fn masked_frame_from_server() {
    // FIN=1, opcode=0x1 (text); MASK=1, payload length=2; masking key; masked "Hi"
    let src = vec![0x81u8, 0x82, 0x12, 0x34, 0x56, 0x78, 0x48 ^ 0x12, 0x69 ^ 0x34];

    let codec = FramesCodec::new(()).into_client();

    let error = codec.decode(&src).unwrap_err();

    assert!(matches!(error, FrameDecodeError::MaskedFrameFromServer));
}

#[test]
fn invalid_opcode() {
    let src = vec![0b00001111u8, 0b00000000];

    let codec = FramesCodec::new(());

    let error = codec.decode(&src).unwrap_err();

    assert!(matches!(error, FrameDecodeError::InvalidOpCode));
}

#[test]
fn control_frame_fragmented() {
    // FIN=0 (fragmented), opcode=0x9 (Ping); MASK=1, payload length=0; masking key
    let src = vec![0x09u8, 0x80, 0x00, 0x00, 0x00, 0x00];

    let codec = FramesCodec::new(());

    let error = codec.decode(&src).unwrap_err();

    assert!(matches!(error, FrameDecodeError::ControlFrameFragmented));
}

#[test]
fn control_frame_too_large() {
    // FIN=1, opcode=0x9 (Ping); MASK=1, length=126; extended length 126; key; payload
    let mut src = vec![0x89u8, 0xFE, 0x00, 0x7E, 0x12, 0x34, 0x56, 0x78];
    for i in 0..126usize {
        src.push(b'A' ^ [0x12u8, 0x34, 0x56, 0x78][i % 4]);
    }

    let codec = FramesCodec::new(());

    let error = codec.decode(&src).unwrap_err();

    assert!(matches!(error, FrameDecodeError::ControlFrameTooLarge));
}

#[test]
fn codec_buffer_too_small() {
    let message = Message::Binary(vec![0u8; 24]);

    let mut codec = FramesCodec::new(seeded());

    let error = codec.encode(&message, 16).unwrap_err();

    assert!(matches!(
        error,
        websocketz::error::FrameEncodeError::BufferTooSmall
    ));
}

#[test]
fn decode_unmasked_text() {
    // Unmasked server-to-client text "Hi": surfaces with 4 bytes consumed.
    let src = vec![0x81u8, 0x02, 0x48, 0x69];

    let codec = FramesCodec::new(()).into_client();

    let (frame, consumed) = codec.decode(&src).unwrap().unwrap();

    assert!(frame.is_final());
    assert!(matches!(frame.opcode(), OpCode::Text));
    assert_eq!(frame.payload(), &b"Hi".to_vec());
    assert_eq!(consumed, 4);
}

#[test]
fn decode_masked_text_at_server() {
    // Masked client-to-server text "Hi": unmasked in place, 8 bytes consumed.
    let src = vec![0x81u8, 0x82, 0x12, 0x34, 0x56, 0x78, 0x48 ^ 0x12, 0x69 ^ 0x34];

    let codec = FramesCodec::new(()).into_server();

    let (frame, consumed) = codec.decode(&src).unwrap().unwrap();

    assert!(frame.is_final());
    assert!(matches!(frame.opcode(), OpCode::Text));
    assert_eq!(frame.payload(), &b"Hi".to_vec());
    assert_eq!(consumed, 8);
}

#[test]
fn decode_incomplete_asks_for_more() {
    let codec = FramesCodec::new(());

    assert!(codec.decode(&vec![0x81u8]).unwrap().is_none());
    assert!(codec.decode(&vec![0x81u8, 0x05, 0x48]).unwrap().is_none());
}

#[test]
fn header_shortest_representation() {
    // 125 bytes: inline length.
    let mut dst = Vec::new();
    let n = Header::new(true, OpCode::Binary, 125).write(&mut dst, 16).unwrap();
    assert_eq!(n, 2);
    assert_eq!(dst, vec![0x82u8, 125]);

    // 126 bytes: 2-byte extended length.
    let mut dst = Vec::new();
    let n = Header::new(true, OpCode::Binary, 126).write(&mut dst, 16).unwrap();
    assert_eq!(n, 4);
    assert_eq!(dst, vec![0x82u8, 126, 0, 126]);

    // 65535 bytes: still 2-byte extended length.
    let mut dst = Vec::new();
    let n = Header::new(true, OpCode::Binary, 65535).write(&mut dst, 16).unwrap();
    assert_eq!(n, 4);
    assert_eq!(dst, vec![0x82u8, 126, 0xFF, 0xFF]);

    // 65536 bytes: 8-byte extended length.
    let mut dst = Vec::new();
    let n = Header::new(true, OpCode::Binary, 65536).write(&mut dst, 16).unwrap();
    assert_eq!(n, 10);
    assert_eq!(dst, vec![0x82u8, 127, 0, 0, 0, 0, 0, 1, 0, 0]);
}

#[test]
fn decoder_accepts_any_well_formed_length() {
    let codec = FramesCodec::new(());

    // A 5-byte payload given with a 2-byte extended length.
    let mut src = vec![0x82u8, 126, 0, 5];
    src.extend_from_slice(b"hello");
    let (frame, consumed) = codec.decode(&src).unwrap().unwrap();
    assert_eq!(frame.payload(), &b"hello".to_vec());
    assert_eq!(consumed, 9);

    // The same payload given with an 8-byte extended length.
    let mut src = vec![0x82u8, 127, 0, 0, 0, 0, 0, 0, 0, 5];
    src.extend_from_slice(b"hello");
    let (frame, consumed) = codec.decode(&src).unwrap().unwrap();
    assert_eq!(frame.payload(), &b"hello".to_vec());
    assert_eq!(consumed, 15);
}

#[test]
fn encode_decode_round_trip_unmasked() {
    // A server encodes without a mask key; a client decodes the same frame back.
    let mut server = FramesCodec::new(seeded()).into_server();
    let client = FramesCodec::new(()).into_client();

    let frame = Frame::new(true, OpCode::Binary, b"round trip".to_vec());
    let bytes = server.encode_frame(&frame, 1024).unwrap();
    assert_eq!(bytes[1] & 0x80, 0, "a server never sets the mask bit");

    let (decoded, consumed) = client.decode(&bytes).unwrap().unwrap();
    assert_eq!(consumed, bytes.len());
    assert!(decoded.is_final());
    assert!(matches!(decoded.opcode(), OpCode::Binary));
    assert_eq!(decoded.payload(), &b"round trip".to_vec());
}

#[test]
fn encode_decode_round_trip_masked() {
    // A client encodes with a random mask key; a server decodes and unmasks.
    let mut client = FramesCodec::new(seeded()).into_client();
    let server = FramesCodec::new(()).into_server();

    let frame = Frame::new(false, OpCode::Text, b"masked payload".to_vec());
    let bytes = client.encode_frame(&frame, 1024).unwrap();
    assert_eq!(bytes[1] & 0x80, 0x80, "a client always sets the mask bit");

    let (decoded, consumed) = server.decode(&bytes).unwrap().unwrap();
    assert_eq!(consumed, bytes.len());
    assert!(!decoded.is_final());
    assert!(matches!(decoded.opcode(), OpCode::Text));
    assert_eq!(decoded.payload(), &b"masked payload".to_vec());
}

#[test]
fn split_keeps_roles() {
    let codec = FramesCodec::new(seeded()).into_client();
    let (read_half, mut write_half) = codec.split();

    // The writer keeps the mask-key source and still masks.
    let bytes = write_half
        .encode_frame(&Frame::new(true, OpCode::Text, b"hi".to_vec()), 64)
        .unwrap();
    assert_eq!(bytes[1] & 0x80, 0x80);

    // The reader keeps the client role: it refuses masked frames.
    let error = read_half.decode(&bytes).unwrap_err();
    assert!(matches!(error, FrameDecodeError::MaskedFrameFromServer));
}

#[test]
fn write_payload_respects_capacity() {
    let frame = Frame::new(true, OpCode::Binary, b"abcdef".to_vec());

    let mut dst = Vec::new();
    assert_eq!(frame.write_payload(&mut dst, 8), Some(6));
    assert_eq!(dst, b"abcdef".to_vec());

    let mut dst = b"xy".to_vec();
    assert_eq!(frame.write_payload(&mut dst, 4), None);
    assert_eq!(dst, b"xy".to_vec());
}

#[test]
fn message_write_builds_close_body() {
    // A close body is the code in two big-endian bytes, then the reason.
    let message = Message::Close(Some(websocketz::CloseFrame::new(
        websocketz::CloseCode::Normal,
        b"bye".to_vec(),
    )));
    let mut dst = Vec::new();
    assert_eq!(message.write(&mut dst, 64), Some(5));
    assert_eq!(dst, vec![0x03, 0xE8, b'b', b'y', b'e']);
    assert_eq!(message.payload_len(), 5);
}
