//! Messages: the application-level units carried by one or more frames.

use vstd::prelude::*;

use crate::close_code::close_code_value;
use crate::close_frame::CloseFrame;
use crate::error::FragmentationError;
use crate::fragments::FragmentsIterator;
use crate::mask::{append_bytes, copy_bytes};
use crate::opcode::OpCode;

verus! {

/// A WebSocket message.
#[derive(Debug, PartialEq, Eq)]
pub enum Message {
    /// A text message; the payload must be valid UTF-8 when surfaced.
    Text(Vec<u8>),
    /// A binary message.
    Binary(Vec<u8>),
    /// A ping message; the payload must be at most 125 bytes.
    Ping(Vec<u8>),
    /// A pong message; the payload must be at most 125 bytes.
    Pong(Vec<u8>),
    /// A close message with an optional close frame.
    Close(Option<CloseFrame>),
}

/// The opcode a message is sent with.
pub open spec fn message_opcode(m: &Message) -> OpCode {
    match m {
        Message::Text(_) => OpCode::Text,
        Message::Binary(_) => OpCode::Binary,
        Message::Ping(_) => OpCode::Ping,
        Message::Pong(_) => OpCode::Pong,
        Message::Close(_) => OpCode::Close,
    }
}

/// The payload bytes a message is sent with. A close frame body is its
/// code in two big-endian bytes followed by the reason.
pub open spec fn message_payload(m: &Message) -> Seq<u8> {
    match m {
        Message::Text(payload) => payload@,
        Message::Binary(payload) => payload@,
        Message::Ping(payload) => payload@,
        Message::Pong(payload) => payload@,
        Message::Close(Some(frame)) => {
            let code = close_code_value(frame.code);
            seq![(code / 256) as u8, (code % 256) as u8] + frame.reason@
        },
        Message::Close(None) => Seq::<u8>::empty(),
    }
}

/// Whether a message's payload fits the machine's address range.
pub open spec fn message_fits(m: &Message) -> bool {
    message_payload(m).len() <= usize::MAX
}

impl Message {
    /// Indicates whether a message is a text message.
    pub fn is_text(&self) -> (r: bool)
        ensures
            r == (self matches Message::Text(_)),
    {
        matches!(*self, Message::Text(_))
    }

    /// Indicates whether a message is a binary message.
    pub fn is_binary(&self) -> (r: bool)
        ensures
            r == (self matches Message::Binary(_)),
    {
        matches!(*self, Message::Binary(_))
    }

    /// Indicates whether a message is a ping message.
    pub fn is_ping(&self) -> (r: bool)
        ensures
            r == (self matches Message::Ping(_)),
    {
        matches!(*self, Message::Ping(_))
    }

    /// Indicates whether a message is a pong message.
    pub fn is_pong(&self) -> (r: bool)
        ensures
            r == (self matches Message::Pong(_)),
    {
        matches!(*self, Message::Pong(_))
    }

    /// Indicates whether a message is a close message.
    pub fn is_close(&self) -> (r: bool)
        ensures
            r == (self matches Message::Close(_)),
    {
        matches!(*self, Message::Close(_))
    }

    /// The opcode this message is sent with.
    pub fn opcode(&self) -> (r: OpCode)
        ensures
            r == message_opcode(self),
    {
        match self {
            Message::Text(_) => OpCode::Text,
            Message::Binary(_) => OpCode::Binary,
            Message::Ping(_) => OpCode::Ping,
            Message::Pong(_) => OpCode::Pong,
            Message::Close(_) => OpCode::Close,
        }
    }

    /// The length of the message's payload in bytes.
    pub fn payload_len(&self) -> (r: usize)
        requires
            message_fits(self),
        ensures
            r == message_payload(self).len(),
    {
        match self {
            Message::Text(payload) => payload.len(),
            Message::Binary(payload) => payload.len(),
            Message::Ping(payload) => payload.len(),
            Message::Pong(payload) => payload.len(),
            Message::Close(Some(frame)) => 2 + frame.reason().len(),
            Message::Close(None) => 0,
        }
    }

    /// Appends the message's payload bytes to `dst`, if they fit within
    /// `capacity` bytes in all.
    pub fn write(&self, dst: &mut Vec<u8>, capacity: usize) -> (r: Option<usize>)
        requires
            message_fits(self),
        ensures
            r matches Some(n) ==> {
                &&& n == message_payload(self).len()
                &&& final(dst)@ == old(dst)@ + message_payload(self)
                &&& final(dst)@.len() <= capacity
            },
            r is None ==> {
                &&& old(dst)@.len() + message_payload(self).len() > capacity
                &&& final(dst)@ == old(dst)@
            },
    {
        let len = self.payload_len();
        if len > capacity || dst.len() > capacity - len {
            return None;
        }
        match self {
            Message::Text(payload) => append_bytes(dst, payload),
            Message::Binary(payload) => append_bytes(dst, payload),
            Message::Ping(payload) => append_bytes(dst, payload),
            Message::Pong(payload) => append_bytes(dst, payload),
            Message::Close(Some(frame)) => {
                let code: u16 = frame.code().into_u16();
                dst.push((code / 256) as u8);
                dst.push((code % 256) as u8);
                append_bytes(dst, frame.reason());
                proof {
                    assert(dst@ =~= old(dst)@ + message_payload(self));
                }
            },
            Message::Close(None) => {
                proof {
                    assert(dst@ =~= old(dst)@ + message_payload(self));
                }
            },
        }
        Some(len)
    }

    /// The frames of this message cut at `fragment_size`: only data
    /// messages can be fragmented, and the size must be at least one.
    pub fn fragments(&self, fragment_size: usize) -> (r: Result<
        FragmentsIterator,
        FragmentationError,
    >)
        ensures
            fragment_size == 0 ==> r == Err::<FragmentsIterator, _>(
                FragmentationError::InvalidFragmentSize,
            ),
            fragment_size >= 1 && !(self matches Message::Text(_)) && !(self
                matches Message::Binary(_)) ==> r == Err::<FragmentsIterator, _>(
                FragmentationError::CanNotBeFragmented,
            ),
            fragment_size >= 1 && (self matches Message::Text(_) || self
                matches Message::Binary(_)) ==> r is Ok,
            r matches Ok(it) ==> {
                &&& fragment_size >= 1
                &&& (self matches Message::Text(_) || self matches Message::Binary(_))
                &&& it.wf()
                &&& it.remaining() == crate::fragments::fragment_frames(
                    message_opcode(self),
                    message_payload(self),
                    fragment_size as nat,
                )
            },
    {
        if fragment_size < 1 {
            return Err(FragmentationError::InvalidFragmentSize);
        }
        match self {
            Message::Text(payload) => Ok(
                FragmentsIterator::new(OpCode::Text, copy_bytes(payload), fragment_size),
            ),
            Message::Binary(payload) => Ok(
                FragmentsIterator::new(OpCode::Binary, copy_bytes(payload), fragment_size),
            ),
            _ => Err(FragmentationError::CanNotBeFragmented),
        }
    }
}

} // verus!
