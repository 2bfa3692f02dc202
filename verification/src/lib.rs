//! A WebSocket endpoint library with a verified protocol core.
//!
//! The frame codec, the message reassembler, the auto-responder, the
//! fragmenter and the HTTP/1.1 upgrade handshake are all plain functions
//! from byte vectors to byte vectors, specified and verified with Verus.
//! Transport I/O is left to the caller: the connection core consumes bytes
//! fed into its read buffer and hands back bytes to transmit.

mod close_code;
pub use close_code::CloseCode;

mod close_frame;
pub use close_frame::CloseFrame;

mod codec;
pub use codec::FramesCodec;

pub mod error;

mod fragments;
pub use fragments::{FragmentsIterator, Iter};

mod handshake;
pub use handshake::{generate_sec_accept, generate_sec_key};

pub mod http;

mod frame;
pub use frame::{Frame, FrameMut, Header};

mod mask;

mod message;
pub use message::Message;

pub mod options;

mod rng;

mod text;

mod opcode;
pub use opcode::OpCode;

mod websocket_core;
pub use websocket_core::{
    auto_respond, extract_close_frame, on_frame, Auto, ConnectionState, FragmentsState, Fragmented,
    OnFrame, OnFrameError, Step, WebSocketCore,
};
