//! Frames: the received-frame view, its masked variant, and the header writer.

use vstd::prelude::*;

use crate::mask::{append_bytes, apply_mask_seq, unmask};
use crate::opcode::{opcode_value, OpCode};

verus! {

/// A received frame: fin flag, opcode and payload bytes.
#[derive(Debug, PartialEq, Eq)]
pub struct Frame {
    /// Indicates if this is the final frame in a message.
    pub fin: bool,
    /// The opcode of the frame.
    pub opcode: OpCode,
    /// The payload of the frame.
    pub payload: Vec<u8>,
}

impl Frame {
    /// Creates a new `Frame` instance.
    pub fn new(fin: bool, opcode: OpCode, payload: Vec<u8>) -> (r: Self)
        ensures
            r.fin == fin,
            r.opcode == opcode,
            r.payload@ == payload@,
    {
        Self { fin, opcode, payload }
    }

    /// Returns whether this is the final frame in a message.
    pub fn is_final(&self) -> (r: bool)
        ensures
            r == self.fin,
    {
        self.fin
    }

    /// Returns the opcode of the frame.
    pub fn opcode(&self) -> (r: OpCode)
        ensures
            r == self.opcode,
    {
        self.opcode
    }

    /// Returns the payload of the frame.
    pub fn payload(&self) -> (r: &Vec<u8>)
        ensures
            r@ == self.payload@,
    {
        &self.payload
    }

    /// Appends the payload to `dst`, if it fits within `capacity` bytes in all.
    pub fn write_payload(&self, dst: &mut Vec<u8>, capacity: usize) -> (r: Option<usize>)
        ensures
            r matches Some(n) ==> {
                &&& n == self.payload@.len()
                &&& final(dst)@ == old(dst)@ + self.payload@
                &&& final(dst)@.len() <= capacity
            },
            r is None ==> {
                &&& old(dst)@.len() + self.payload@.len() > capacity
                &&& final(dst)@ == old(dst)@
            },
    {
        if self.payload.len() > capacity || dst.len() > capacity - self.payload.len() {
            return None;
        }
        append_bytes(dst, &self.payload);
        Some(self.payload.len())
    }
}

/// A received frame before unmasking: carries the masking key, if any.
#[derive(Debug)]
pub struct FrameMut {
    /// Indicates if this is the final frame in a message.
    pub fin: bool,
    /// The opcode of the frame.
    pub opcode: OpCode,
    /// The masking key of the frame, if any.
    pub mask: Option<[u8; 4]>,
    /// The payload of the frame.
    pub payload: Vec<u8>,
}

impl FrameMut {
    /// Creates a new `FrameMut` instance.
    pub fn new(fin: bool, opcode: OpCode, mask: Option<[u8; 4]>, payload: Vec<u8>) -> (r: Self)
        ensures
            r.fin == fin,
            r.opcode == opcode,
            r.mask == mask,
            r.payload@ == payload@,
    {
        Self { fin, opcode, mask, payload }
    }

    /// Drops the masking key, keeping the payload as it stands.
    pub fn into_frame(self) -> (r: Frame)
        ensures
            r.fin == self.fin,
            r.opcode == self.opcode,
            r.payload@ == self.payload@,
    {
        Frame { fin: self.fin, opcode: self.opcode, payload: self.payload }
    }

    /// XOR-unmasks the payload in place, if a masking key is present.
    pub fn unmask(&mut self)
        ensures
            final(self).fin == old(self).fin,
            final(self).opcode == old(self).opcode,
            final(self).mask == old(self).mask,
            old(self).mask matches Some(key) ==> final(self).payload@ == apply_mask_seq(
                old(self).payload@,
                key@,
            ),
            old(self).mask is None ==> final(self).payload@ == old(self).payload@,
    {
        if let Some(mask) = self.mask {
            unmask(&mut self.payload, mask);
        }
    }
}

/// The encoded frame header: two bytes, then the shortest extended length
/// that the payload length asks for (none, two bytes big-endian, or eight
/// bytes big-endian).
pub open spec fn header_bytes(fin: bool, opcode: OpCode, len: usize) -> Seq<u8> {
    let b0 = (((if fin {
        128int
    } else {
        0int
    }) + opcode_value(opcode)) as u8);
    if len < 126 {
        seq![b0, len as u8]
    } else if len < 65536 {
        seq![b0, 126u8, (len / 256) as u8, (len % 256) as u8]
    } else {
        seq![
            b0,
            127u8,
            ((len as u64 / 0x100000000000000) % 256) as u8,
            ((len as u64 / 0x1000000000000) % 256) as u8,
            ((len as u64 / 0x10000000000) % 256) as u8,
            ((len as u64 / 0x100000000) % 256) as u8,
            ((len as u64 / 0x1000000) % 256) as u8,
            ((len as u64 / 0x10000) % 256) as u8,
            ((len as u64 / 0x100) % 256) as u8,
            (len as u64 % 256) as u8,
        ]
    }
}

/// The size of the encoded header for a payload length.
pub open spec fn header_size(len: usize) -> int {
    if len < 126 {
        2
    } else if len < 65536 {
        4
    } else {
        10
    }
}

/// The header of a frame to be encoded.
#[derive(Debug)]
pub struct Header {
    /// Indicates if this is the final frame in a message.
    pub fin: bool,
    /// The opcode of the frame.
    pub opcode: OpCode,
    /// The length of the payload.
    pub payload_len: usize,
}

impl Header {
    /// Creates a new `Header`.
    pub fn new(fin: bool, opcode: OpCode, payload_len: usize) -> (r: Self)
        ensures
            r.fin == fin,
            r.opcode == opcode,
            r.payload_len == payload_len,
    {
        Self { fin, opcode, payload_len }
    }

    /// Appends the encoded header to `dst`, if it fits within `capacity`
    /// bytes in all. The encoder picks the shortest of the three length
    /// representations.
    pub fn write(&self, dst: &mut Vec<u8>, capacity: usize) -> (r: Option<usize>)
        ensures
            r matches Some(n) ==> {
                &&& n == header_size(self.payload_len)
                &&& final(dst)@ == old(dst)@ + header_bytes(self.fin, self.opcode, self.payload_len)
                &&& final(dst)@.len() <= capacity
            },
            r is None ==> {
                &&& old(dst)@.len() + header_size(self.payload_len) > capacity
                &&& final(dst)@ == old(dst)@
            },
    {
        let len = self.payload_len;
        let size: usize = if len < 126 {
            2
        } else if len < 65536 {
            4
        } else {
            10
        };
        if size > capacity || dst.len() > capacity - size {
            return None;
        }
        let b0: u8 = (if self.fin {
            128u8
        } else {
            0u8
        }) + self.opcode.as_u8();
        dst.push(b0);
        if len < 126 {
            dst.push(len as u8);
        } else if len < 65536 {
            dst.push(126u8);
            dst.push((len / 256) as u8);
            dst.push((len % 256) as u8);
        } else {
            let w = len as u64;
            dst.push(127u8);
            dst.push(((w / 0x100000000000000) % 256) as u8);
            dst.push(((w / 0x1000000000000) % 256) as u8);
            dst.push(((w / 0x10000000000) % 256) as u8);
            dst.push(((w / 0x100000000) % 256) as u8);
            dst.push(((w / 0x1000000) % 256) as u8);
            dst.push(((w / 0x10000) % 256) as u8);
            dst.push(((w / 0x100) % 256) as u8);
            dst.push((w % 256) as u8);
        }
        proof {
            assert(dst@ =~= old(dst)@ + header_bytes(self.fin, self.opcode, self.payload_len));
        }
        Some(size)
    }
}

} // verus!
