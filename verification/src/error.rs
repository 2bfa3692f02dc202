//! Error types used throughout the crate.

use vstd::prelude::*;

verus! {

/// Error decoding a WebSocket frame.
#[derive(Debug, Clone, Copy, PartialEq, Eq, Structural)]
pub enum FrameDecodeError {
    /// Reserved bits are not zero.
    ReservedBitsNotZero,
    /// Unmasked frame received by a server.
    UnmaskedFrameFromClient,
    /// Masked frame received by a client.
    MaskedFrameFromServer,
    /// Invalid opcode.
    InvalidOpCode,
    /// The 8-byte extended payload length does not fit in `usize`.
    PayloadTooLarge,
    /// Control frames must not be fragmented.
    ControlFrameFragmented,
    /// Control frames must have a payload length of 125 bytes or less.
    ControlFrameTooLarge,
}

/// Error encoding a WebSocket frame.
#[derive(Debug, Clone, Copy, PartialEq, Eq, Structural)]
pub enum FrameEncodeError {
    /// Write buffer is too small to hold the encoded frame.
    BufferTooSmall,
}

/// Error parsing an HTTP request or response head.
#[derive(Debug, Clone, Copy, PartialEq, Eq, Structural)]
pub enum HttpParseError {
    /// The head is complete but malformed.
    Invalid,
    /// The head holds more headers than the configured maximum.
    TooManyHeaders,
}

/// Error decoding an HTTP request/response.
#[derive(Debug, Clone, Copy, PartialEq, Eq, Structural)]
pub enum HttpDecodeError {
    /// Error parsing the HTTP request/response.
    Parse(HttpParseError),
}

/// Error encoding an HTTP request/response.
#[derive(Debug, Clone, Copy, PartialEq, Eq, Structural)]
pub enum HttpEncodeError {
    /// Write buffer is too small to hold the encoded HTTP request/response.
    BufferTooSmall,
}

/// Protocol specific errors/violations.
#[derive(Debug, Clone, Copy, PartialEq, Eq, Structural)]
pub enum ProtocolError {
    /// Close frame is invalid (a 1-byte payload).
    InvalidCloseFrame,
    /// Close code is not one that an endpoint may send.
    InvalidCloseCode,
    /// Text payload or close reason holds invalid UTF-8.
    InvalidUTF8,
    /// A new data message started while a fragmented message is in progress.
    InvalidFragment,
    /// A continuation frame arrived without an ongoing fragmented message.
    InvalidContinuationFrame,
}

/// Error reading from a WebSocket connection.
#[derive(Debug, Clone, Copy, PartialEq, Eq, Structural)]
pub enum ReadError {
    /// Error decoding a WebSocket frame.
    ReadFrame(FrameDecodeError),
    /// Error decoding an HTTP head.
    ReadHttp(HttpDecodeError),
    /// Protocol error.
    Protocol(ProtocolError),
    /// Fragments buffer is too small to reassemble the message.
    FragmentsBufferTooSmall,
    /// Read buffer is too small to buffer the fed bytes.
    ReadBufferTooSmall,
}

/// Error writing to a WebSocket connection.
#[derive(Debug, Clone, Copy, PartialEq, Eq, Structural)]
pub enum WriteError {
    /// Websocket connection is closed.
    ConnectionClosed,
    /// Error encoding a WebSocket frame.
    WriteFrame(FrameEncodeError),
    /// Error encoding an HTTP head.
    WriteHttp(HttpEncodeError),
}

/// Error establishing a WebSocket handshake.
#[derive(Debug, Clone, Copy, PartialEq, Eq, Structural)]
pub enum HandshakeError {
    /// Use of the wrong HTTP method (the WebSocket protocol requires GET).
    WrongHttpMethod,
    /// Wrong HTTP version used (the WebSocket protocol requires 1.1 or higher).
    WrongHttpVersion,
    /// Connection was closed during the handshake.
    ConnectionClosed,
    /// Invalid status code (should be 101 for switching protocols).
    InvalidStatusCode,
    /// Missing or invalid (`Upgrade`: `websocket`) header.
    MissingOrInvalidUpgrade,
    /// Missing or invalid (`Connection`: `upgrade`) header.
    MissingOrInvalidConnection,
    /// Missing or invalid (`Sec-WebSocket-Accept`) header.
    MissingOrInvalidAccept,
    /// Missing or invalid (`Sec-WebSocket-Version`) header.
    MissingOrInvalidSecVersion,
    /// Missing (`Sec-WebSocket-Key`) header.
    MissingSecKey,
}

/// Fragmentation error.
#[derive(Debug, Clone, Copy, PartialEq, Eq, Structural)]
pub enum FragmentationError {
    /// Fragment size is zero.
    InvalidFragmentSize,
    /// Only text and binary messages can be fragmented.
    CanNotBeFragmented,
}

/// General WebSocket error type.
#[derive(Debug, Clone, Copy, PartialEq, Eq, Structural)]
pub enum Error {
    /// Error reading from the WebSocket connection.
    Read(ReadError),
    /// Error writing to the WebSocket connection.
    Write(WriteError),
    /// Handshake error.
    Handshake(HandshakeError),
    /// Fragmentation error.
    Fragmentation(FragmentationError),
}

} // verus!
