//! WebSocket frame opcodes.

use vstd::prelude::*;

use crate::error::FrameDecodeError;

verus! {

/// A WebSocket frame opcode (RFC 6455, section 5.2).
#[derive(Debug, Clone, Copy, PartialEq, Eq, Structural)]
pub enum OpCode {
    /// A continuation frame of a fragmented message.
    Continuation,
    /// A text data frame.
    Text,
    /// A binary data frame.
    Binary,
    /// A close control frame.
    Close,
    /// A ping control frame.
    Ping,
    /// A pong control frame.
    Pong,
}

/// The wire value of an opcode.
pub open spec fn opcode_value(op: OpCode) -> u8 {
    match op {
        OpCode::Continuation => 0x0,
        OpCode::Text => 0x1,
        OpCode::Binary => 0x2,
        OpCode::Close => 0x8,
        OpCode::Ping => 0x9,
        OpCode::Pong => 0xA,
    }
}

/// The opcode a wire value stands for, if any.
pub open spec fn opcode_of(code: u8) -> Option<OpCode> {
    if code == 0x0 {
        Some(OpCode::Continuation)
    } else if code == 0x1 {
        Some(OpCode::Text)
    } else if code == 0x2 {
        Some(OpCode::Binary)
    } else if code == 0x8 {
        Some(OpCode::Close)
    } else if code == 0x9 {
        Some(OpCode::Ping)
    } else if code == 0xA {
        Some(OpCode::Pong)
    } else {
        None
    }
}

/// True of the control opcodes: Close, Ping and Pong.
pub open spec fn is_control_opcode(op: OpCode) -> bool {
    op == OpCode::Close || op == OpCode::Ping || op == OpCode::Pong
}

impl OpCode {
    /// Whether this opcode marks a control frame.
    pub fn is_control(&self) -> (r: bool)
        ensures
            r == is_control_opcode(*self),
    {
        matches!(self, OpCode::Close | OpCode::Ping | OpCode::Pong)
    }

    /// Decodes a wire value; values outside the six assigned opcodes are rejected.
    pub fn try_from_u8(code: u8) -> (r: Result<Self, FrameDecodeError>)
        ensures
            r matches Ok(op) ==> opcode_of(code) == Some(op),
            r matches Err(e) ==> opcode_of(code) is None && e == FrameDecodeError::InvalidOpCode,
    {
        match code {
            0x0 => Ok(OpCode::Continuation),
            0x1 => Ok(OpCode::Text),
            0x2 => Ok(OpCode::Binary),
            0x8 => Ok(OpCode::Close),
            0x9 => Ok(OpCode::Ping),
            0xA => Ok(OpCode::Pong),
            _ => Err(FrameDecodeError::InvalidOpCode),
        }
    }

    /// The wire value of this opcode.
    pub fn as_u8(&self) -> (r: u8)
        ensures
            r == opcode_value(*self),
    {
        match self {
            OpCode::Continuation => 0x0,
            OpCode::Text => 0x1,
            OpCode::Binary => 0x2,
            OpCode::Close => 0x8,
            OpCode::Ping => 0x9,
            OpCode::Pong => 0xA,
        }
    }
}

} // verus!
