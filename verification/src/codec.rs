//! The frame codec: decode of a single frame from a byte buffer, and
//! encode of a single frame into fresh bytes, bounded by a buffer capacity.

use vstd::prelude::*;

use crate::error::{FrameDecodeError, FrameEncodeError};
use crate::frame::{header_bytes, header_size, Frame, FrameMut, Header};
use crate::mask::{append_bytes, apply_mask_seq, lemma_mask_involutive, unmask};
use crate::message::{message_fits, message_opcode, message_payload, Message};
use crate::opcode::{is_control_opcode, opcode_of, opcode_value, OpCode};
use crate::rng::random_mask_key;

verus! {

/// The fields of a decoded frame, together with how many bytes of the
/// buffer it occupied.
pub struct FrameFields {
    /// The fin flag.
    pub fin: bool,
    /// The opcode.
    pub opcode: OpCode,
    /// The payload, unmasked where the codec unmasks.
    pub payload: Seq<u8>,
    /// The number of buffer bytes the frame occupied.
    pub consumed: int,
}

/// What decoding a buffer yields: more bytes are needed, the frame at the
/// head of the buffer is malformed, or a complete frame.
pub enum DecodeOutcome {
    /// The buffer holds no complete frame yet.
    Incomplete,
    /// The frame at the head of the buffer is malformed.
    Fail(FrameDecodeError),
    /// A complete frame.
    Done(FrameFields),
}

/// A 16-bit big-endian value.
pub open spec fn be16(hi: u8, lo: u8) -> int {
    hi * 256 + lo
}

/// A 64-bit big-endian value, read from 8 bytes.
pub open spec fn be64(s: Seq<u8>) -> int
    recommends
        s.len() == 8,
{
    s[0] * 0x100000000000000 + s[1] * 0x1000000000000 + s[2] * 0x10000000000 + s[3] * 0x100000000
        + s[4] * 0x1000000 + s[5] * 0x10000 + s[6] * 0x100 + s[7]
}

/// What decoding the head of `s` yields, for a codec with the given role
/// flags. The frame layout is read arithmetically from the first bytes:
/// fin is the top bit of byte 0, the three reserved bits follow it, the
/// opcode is its low nibble; the mask flag is the top bit of byte 1 and
/// the length code its low 7 bits.
pub open spec fn decode_spec(unmask_flag: bool, mask_flag: bool, s: Seq<u8>) -> DecodeOutcome {
    let is_server = unmask_flag && !mask_flag;
    let is_client = mask_flag && !unmask_flag;
    if s.len() < 2 {
        DecodeOutcome::Incomplete
    } else {
        let b0 = s[0];
        let b1 = s[1];
        let fin = b0 >= 128;
        if (b0 % 128) / 16 != 0 {
            DecodeOutcome::Fail(FrameDecodeError::ReservedBitsNotZero)
        } else {
            match opcode_of((b0 % 16) as u8) {
                None => DecodeOutcome::Fail(FrameDecodeError::InvalidOpCode),
                Some(opcode) => {
                    let masked = b1 >= 128;
                    if is_server && !masked {
                        DecodeOutcome::Fail(FrameDecodeError::UnmaskedFrameFromClient)
                    } else if is_client && masked {
                        DecodeOutcome::Fail(FrameDecodeError::MaskedFrameFromServer)
                    } else {
                        let length_code = b1 % 128;
                        let extra: int = if length_code == 126 {
                            2
                        } else if length_code == 127 {
                            8
                        } else {
                            0
                        };
                        let min_len = 2 + extra + (if masked {
                            4int
                        } else {
                            0int
                        });
                        if s.len() < min_len {
                            DecodeOutcome::Incomplete
                        } else {
                            let plen: int = if extra == 0 {
                                length_code as int
                            } else if extra == 2 {
                                be16(s[2], s[3])
                            } else {
                                be64(s.subrange(2, 10))
                            };
                            if plen > usize::MAX {
                                DecodeOutcome::Fail(FrameDecodeError::PayloadTooLarge)
                            } else if is_control_opcode(opcode) && !fin {
                                DecodeOutcome::Fail(FrameDecodeError::ControlFrameFragmented)
                            } else if is_control_opcode(opcode) && plen > 125 {
                                DecodeOutcome::Fail(FrameDecodeError::ControlFrameTooLarge)
                            } else if s.len() < min_len + plen {
                                DecodeOutcome::Incomplete
                            } else {
                                let raw = s.subrange(min_len, min_len + plen);
                                let payload = if is_server && masked {
                                    apply_mask_seq(raw, s.subrange(2 + extra, 6 + extra))
                                } else {
                                    raw
                                };
                                DecodeOutcome::Done(
                                    FrameFields { fin, opcode, payload, consumed: min_len + plen },
                                )
                            }
                        }
                    }
                }
            }
        }
    }
}

/// Relates a decode result to a decode outcome, field by field.
pub open spec fn decode_matches(
    r: Result<Option<(Frame, usize)>, FrameDecodeError>,
    o: DecodeOutcome,
) -> bool {
    match o {
        DecodeOutcome::Incomplete => r matches Ok(None),
        DecodeOutcome::Fail(e) => r matches Err(e2) && e2 == e,
        DecodeOutcome::Done(m) => r matches Ok(Some((f, n))) && {
            &&& f.fin == m.fin
            &&& f.opcode == m.opcode
            &&& f.payload@ == m.payload
            &&& n == m.consumed
        },
    }
}

/// The bytes of an encoded frame: the header (with the mask bit set when
/// a key is present), then the key if any, then the payload, masked with
/// the key when one is present.
pub open spec fn encoded_frame(fin: bool, opcode: OpCode, payload: Seq<u8>, key: Option<
    Seq<u8>,
>) -> Seq<u8> {
    let h = header_bytes(fin, opcode, payload.len() as usize);
    match key {
        None => h + payload,
        Some(k) => h.update(1, (h[1] + 128) as u8) + k + apply_mask_seq(payload, k),
    }
}

/// The length of an encoded frame.
pub open spec fn encoded_frame_len(payload_len: usize, has_key: bool) -> int {
    header_size(payload_len) + (if has_key {
        4int
    } else {
        0int
    }) + payload_len
}

/// The frame codec. The two role flags say whether outgoing payloads are
/// masked (client) and incoming payloads unmasked (server); `rng` is the
/// mask-key source, carried only where the codec masks.
#[derive(Debug)]
pub struct FramesCodec<R> {
    /// Whether incoming payloads are unmasked (the server role).
    pub unmask: bool,
    /// Whether outgoing payloads are masked (the client role).
    pub mask: bool,
    /// The mask-key source.
    pub rng: R,
}

impl<R> FramesCodec<R> {
    /// A client codec masks outgoing frames and expects unmasked incoming frames.
    pub open spec fn spec_is_client(&self) -> bool {
        self.mask && !self.unmask
    }

    /// A server codec unmasks incoming frames and sends unmasked frames.
    pub open spec fn spec_is_server(&self) -> bool {
        self.unmask && !self.mask
    }

    /// Creates a codec with both role flags off.
    pub fn new(rng: R) -> (r: Self)
        ensures
            !r.unmask,
            !r.mask,
    {
        Self { unmask: false, mask: false, rng }
    }

    /// Sets whether incoming payloads are unmasked.
    pub fn set_unmask(&mut self, unmask: bool)
        ensures
            final(self).unmask == unmask,
            final(self).mask == old(self).mask,
            final(self).rng == old(self).rng,
    {
        self.unmask = unmask;
    }

    /// Sets whether outgoing payloads are masked.
    pub fn set_mask(&mut self, mask: bool)
        ensures
            final(self).mask == mask,
            final(self).unmask == old(self).unmask,
            final(self).rng == old(self).rng,
    {
        self.mask = mask;
    }

    /// Returns a mutable reference to the mask-key source.
    pub fn rng_mut(&mut self) -> (r: &mut R)
        ensures
            *r == old(self).rng,
            final(self).rng == *final(r),
            final(self).unmask == old(self).unmask,
            final(self).mask == old(self).mask,
    {
        &mut self.rng
    }

    /// Check if the codec is configured for a client.
    pub fn is_client(&self) -> (r: bool)
        ensures
            r == self.spec_is_client(),
    {
        self.mask && !self.unmask
    }

    /// Check if the codec is configured for a server.
    pub fn is_server(&self) -> (r: bool)
        ensures
            r == self.spec_is_server(),
    {
        self.unmask && !self.mask
    }

    /// Turns the codec into a client codec.
    pub fn into_client(self) -> (r: Self)
        ensures
            r.mask,
            !r.unmask,
            r.rng == self.rng,
    {
        Self { mask: true, unmask: false, rng: self.rng }
    }

    /// Turns the codec into a server codec.
    pub fn into_server(self) -> (r: Self)
        ensures
            !r.mask,
            r.unmask,
            r.rng == self.rng,
    {
        Self { mask: false, unmask: true, rng: self.rng }
    }

    /// Splits the codec into a reader half without the mask-key source and
    /// a writer half that keeps it. Both halves keep the role flags.
    pub fn split(self) -> (r: (FramesCodec<()>, FramesCodec<R>))
        ensures
            r.0.unmask == self.unmask,
            r.0.mask == self.mask,
            r.1.unmask == self.unmask,
            r.1.mask == self.mask,
            r.1.rng == self.rng,
    {
        (
            FramesCodec { unmask: self.unmask, mask: self.mask, rng: () },
            FramesCodec { unmask: self.unmask, mask: self.mask, rng: self.rng },
        )
    }

    /// Decodes the frame at the head of `src`, if a complete one is
    /// buffered: `Ok(None)` asks for more bytes, `Ok(Some((frame, n)))`
    /// hands the frame out together with the `n` bytes it occupied, and a
    /// malformed head fails. Payloads are unmasked for a server codec.
    pub fn decode(&self, src: &Vec<u8>) -> (r: Result<Option<(Frame, usize)>, FrameDecodeError>)
        ensures
            decode_matches(r, decode_spec(self.unmask, self.mask, src@)),
    {
        if src.len() < 2 {
            return Ok(None);
        }
        let b0 = src[0];
        let b1 = src[1];
        let fin = b0 >= 128;
        if (b0 % 128) / 16 != 0 {
            return Err(FrameDecodeError::ReservedBitsNotZero);
        }
        let opcode = match OpCode::try_from_u8(b0 % 16) {
            Ok(op) => op,
            Err(e) => {
                return Err(e);
            },
        };
        let masked = b1 >= 128;
        if self.is_server() && !masked {
            return Err(FrameDecodeError::UnmaskedFrameFromClient);
        }
        if self.is_client() && masked {
            return Err(FrameDecodeError::MaskedFrameFromServer);
        }
        let length_code = b1 % 128;
        let extra: usize = if length_code == 126 {
            2
        } else if length_code == 127 {
            8
        } else {
            0
        };
        let min_len: usize = 2 + extra + (if masked {
            4
        } else {
            0
        });
        if src.len() < min_len {
            return Ok(None);
        }
        let plen: usize = if extra == 0 {
            length_code as usize
        } else if extra == 2 {
            (src[2] as usize) * 256 + (src[3] as usize)
        } else {
            let w: u64 = (src[2] as u64) * 0x100000000000000 + (src[3] as u64) * 0x1000000000000 + (
            src[4] as u64) * 0x10000000000 + (src[5] as u64) * 0x100000000 + (src[6] as u64)
                * 0x1000000 + (src[7] as u64) * 0x10000 + (src[8] as u64) * 0x100 + (src[9] as u64);
            proof {
                assert(w == be64(src@.subrange(2, 10)));
            }
            if w > (usize::MAX as u64) {
                return Err(FrameDecodeError::PayloadTooLarge);
            }
            w as usize
        };
        if opcode.is_control() {
            if !fin {
                return Err(FrameDecodeError::ControlFrameFragmented);
            }
            if plen > 125 {
                return Err(FrameDecodeError::ControlFrameTooLarge);
            }
        }
        if src.len() - min_len < plen {
            return Ok(None);
        }
        let consumed = min_len + plen;
        let mut payload: Vec<u8> = Vec::new();
        let mut i: usize = min_len;
        while i < consumed
            invariant
                min_len <= i <= consumed,
                consumed <= src@.len(),
                payload@ =~= src@.subrange(min_len as int, i as int),
            decreases consumed - i,
        {
            payload.push(src[i]);
            proof {
                assert(src@.subrange(min_len as int, i + 1) =~= src@.subrange(
                    min_len as int,
                    i as int,
                ).push(src@[i as int]));
            }
            i += 1;
        }
        let mask_key: Option<[u8; 4]> = if masked {
            let k = [src[2 + extra], src[3 + extra], src[4 + extra], src[5 + extra]];
            proof {
                assert(k@ =~= src@.subrange(2 + extra, 6 + extra as int));
            }
            Some(k)
        } else {
            None
        };
        let mut frame = FrameMut::new(fin, opcode, mask_key, payload);
        if self.is_server() {
            frame.unmask();
        }
        Ok(Some((frame.into_frame(), consumed)))
    }
}

impl FramesCodec<rand::rngs::StdRng> {
    /// Encodes one frame: the header, a fresh random mask key when this
    /// codec masks (the client role), and the payload, masked with that
    /// key. Fails when the whole frame does not fit in `capacity` bytes.
    pub fn encode_inner(&mut self, fin: bool, opcode: OpCode, payload: &Vec<u8>, capacity: usize) -> (r:
        Result<Vec<u8>, FrameEncodeError>)
        ensures
            final(self).unmask == old(self).unmask,
            final(self).mask == old(self).mask,
            (r is Ok) <==> encoded_frame_len(
                (payload@.len() as usize),
                old(self).spec_is_client(),
            ) <= capacity,
            r matches Err(e) ==> e == FrameEncodeError::BufferTooSmall,
            r matches Ok(v) ==> v@.len() == encoded_frame_len(
                (payload@.len() as usize),
                old(self).spec_is_client(),
            ),
            r matches Ok(v) ==> (if old(self).spec_is_client() {
                exists|k: Seq<u8>|
                    k.len() == 4 && v@ == encoded_frame(fin, opcode, payload@, Some(k))
            } else {
                v@ == encoded_frame(fin, opcode, payload@, None)
            }),
    {
        let ghost h = header_bytes(fin, opcode, payload@.len() as usize);
        let header = Header::new(fin, opcode, payload.len());
        let mut dst: Vec<u8> = Vec::new();
        let head_len = match header.write(&mut dst, capacity) {
            Some(n) => n,
            None => {
                return Err(FrameEncodeError::BufferTooSmall);
            },
        };
        proof {
            assert(dst@ =~= h);
            assert(h[1] < 128);
        }
        let mask_key: Option<[u8; 4]> = if self.is_client() {
            if capacity - head_len < 4 {
                return Err(FrameEncodeError::BufferTooSmall);
            }
            let key = random_mask_key(&mut self.rng);
            let b1 = dst[1];
            dst[1] = b1 + 128;
            dst.push(key[0]);
            dst.push(key[1]);
            dst.push(key[2]);
            dst.push(key[3]);
            proof {
                assert(dst@ =~= h.update(1, (h[1] + 128) as u8) + key@);
            }
            Some(key)
        } else {
            None
        };
        if payload.len() > capacity || dst.len() > capacity - payload.len() {
            return Err(FrameEncodeError::BufferTooSmall);
        }
        match mask_key {
            Some(key) => {
                let mut masked: Vec<u8> = Vec::new();
                append_bytes(&mut masked, payload);
                proof {
                    assert(masked@ =~= payload@);
                }
                unmask(&mut masked, key);
                append_bytes(&mut dst, &masked);
                proof {
                    assert(dst@ =~= encoded_frame(fin, opcode, payload@, Some(key@)));
                }
            },
            None => {
                append_bytes(&mut dst, payload);
                proof {
                    assert(dst@ =~= encoded_frame(fin, opcode, payload@, None));
                }
            },
        }
        Ok(dst)
    }

    /// Encodes one message as a single final frame.
    pub fn encode(&mut self, item: &Message, capacity: usize) -> (r: Result<
        Vec<u8>,
        FrameEncodeError,
    >)
        requires
            message_fits(item),
        ensures
            final(self).unmask == old(self).unmask,
            final(self).mask == old(self).mask,
            (r is Ok) <==> encoded_frame_len(
                (message_payload(item).len() as usize),
                old(self).spec_is_client(),
            ) <= capacity,
            r matches Err(e) ==> e == FrameEncodeError::BufferTooSmall,
            r matches Ok(v) ==> v@.len() == encoded_frame_len(
                (message_payload(item).len() as usize),
                old(self).spec_is_client(),
            ),
            r matches Ok(v) ==> (if old(self).spec_is_client() {
                exists|k: Seq<u8>|
                    k.len() == 4 && v@ == encoded_frame(
                        true,
                        message_opcode(item),
                        message_payload(item),
                        Some(k),
                    )
            } else {
                v@ == encoded_frame(true, message_opcode(item), message_payload(item), None)
            }),
    {
        let mut payload: Vec<u8> = Vec::new();
        let len = item.payload_len();
        let wrote = item.write(&mut payload, len);
        proof {
            assert(wrote is Some);
            assert(payload@ =~= message_payload(item));
        }
        self.encode_inner(true, item.opcode(), &payload, capacity)
    }

    /// Encodes one already-formed frame.
    pub fn encode_frame(&mut self, item: &Frame, capacity: usize) -> (r: Result<
        Vec<u8>,
        FrameEncodeError,
    >)
        ensures
            final(self).unmask == old(self).unmask,
            final(self).mask == old(self).mask,
            (r is Ok) <==> encoded_frame_len(
                (item.payload@.len() as usize),
                old(self).spec_is_client(),
            ) <= capacity,
            r matches Err(e) ==> e == FrameEncodeError::BufferTooSmall,
            r matches Ok(v) ==> v@.len() == encoded_frame_len(
                (item.payload@.len() as usize),
                old(self).spec_is_client(),
            ),
            r matches Ok(v) ==> (if old(self).spec_is_client() {
                exists|k: Seq<u8>|
                    k.len() == 4 && v@ == encoded_frame(item.fin, item.opcode, item.payload@, Some(k))
            } else {
                v@ == encoded_frame(item.fin, item.opcode, item.payload@, None)
            }),
    {
        self.encode_inner(item.fin, item.opcode, &item.payload, capacity)
    }
}

/// Every decoded frame came from a well-formed head: the reserved bits
/// were zero, the opcode nibble is one of the six assigned opcodes, and a
/// control frame has fin set and a payload of at most 125 bytes.
pub proof fn lemma_decoded_frame_well_formed(unmask_flag: bool, mask_flag: bool, s: Seq<u8>)
    ensures
        decode_spec(unmask_flag, mask_flag, s) matches DecodeOutcome::Done(m) ==> {
            &&& (s[0] % 128) / 16 == 0
            &&& opcode_of((s[0] % 16) as u8) == Some(m.opcode)
            &&& m.fin == (s[0] >= 128)
            &&& (is_control_opcode(m.opcode) ==> m.fin && m.payload.len() <= 125)
        },
{
}

/// At a server, every decoded frame was received masked: the mask bit of
/// the second header byte was set.
pub proof fn lemma_server_decodes_only_masked(s: Seq<u8>)
    ensures
        decode_spec(true, false, s) matches DecodeOutcome::Done(m) ==> s[1] >= 128,
{
}

/// At a client, every decoded frame was received unmasked: the mask bit
/// of the second header byte was clear.
pub proof fn lemma_client_decodes_only_unmasked(s: Seq<u8>)
    ensures
        decode_spec(false, true, s) matches DecodeOutcome::Done(m) ==> s[1] < 128,
{
}

/// True when an outcome is a completed frame with exactly these fields.
pub open spec fn decode_done_is(
    o: DecodeOutcome,
    fin: bool,
    opcode: OpCode,
    payload: Seq<u8>,
    consumed: int,
) -> bool {
    o matches DecodeOutcome::Done(m) && m.fin == fin && m.opcode == opcode && m.payload == payload
        && m.consumed == consumed
}

/// Encoding a well-formed frame and decoding the produced bytes at the
/// peer yields the same fin flag, opcode and payload, and consumes the
/// whole encoding. A masked frame decoded at a server comes back with the
/// original payload, because masking is its own inverse; an unmasked
/// frame decoded at a client comes back unchanged.
#[verifier::rlimit(80)]
pub proof fn lemma_encode_decode_round_trip(
    fin: bool,
    opcode: OpCode,
    payload: Seq<u8>,
    key: Option<Seq<u8>>,
)
    requires
        payload.len() <= usize::MAX,
        is_control_opcode(opcode) ==> fin && payload.len() <= 125,
        key matches Some(k) ==> k.len() == 4,
    ensures
        key matches Some(k) ==> decode_done_is(
            decode_spec(true, false, encoded_frame(fin, opcode, payload, key)),
            fin,
            opcode,
            payload,
            encoded_frame(fin, opcode, payload, key).len() as int,
        ),
        key is None ==> decode_done_is(
            decode_spec(false, true, encoded_frame(fin, opcode, payload, None)),
            fin,
            opcode,
            payload,
            encoded_frame(fin, opcode, payload, None).len() as int,
        ),
{
    let plen = payload.len() as usize;
    let h = header_bytes(fin, opcode, plen);
    let v = opcode_value(opcode);
    assert(v <= 15) by {
        lemma_opcode_facts(opcode);
    }
    let b0 = h[0];
    assert(b0 == ((if fin {
        128int
    } else {
        0int
    }) + v) as u8);
    assert((b0 >= 128) == fin);
    assert((b0 % 128) / 16 == 0);
    assert((b0 % 16) as u8 == v);
    assert(opcode_of(v) == Some(opcode)) by {
        lemma_opcode_facts(opcode);
    }
    match key {
        Some(k) => {
            let s = encoded_frame(fin, opcode, payload, key);
            let hm = h.update(1, (h[1] + 128) as u8);
            let mp = apply_mask_seq(payload, k);
            assert(mp.len() == payload.len());
            assert(s == hm + k + mp);
            assert(s.len() == h.len() + 4 + plen);
            assert(s[0] == b0);
            assert(s[1] == (h[1] + 128) as u8);
            assert(s[1] >= 128);
            let length_code = s[1] % 128;
            if plen < 126 {
                assert(h[1] == plen as u8);
                assert(length_code == plen);
                let min_len = 2 + 4int;
                assert(s.len() >= min_len);
                assert(s.subrange(2, 6) =~= k);
                assert(s.subrange(min_len, min_len + plen) =~= mp);
                lemma_mask_involutive(payload, k);
                assert(apply_mask_seq(mp, k) == payload);
                assert(decode_done_is(
                    decode_spec(true, false, s),
                    fin,
                    opcode,
                    payload,
                    s.len() as int,
                ));
            } else if plen < 65536 {
                assert(h[1] == 126u8);
                assert(length_code == 126);
                let min_len = 4 + 4int;
                assert(s[2] == h[2] && s[3] == h[3]);
                assert(be16(s[2], s[3]) == (plen / 256) * 256 + plen % 256);
                assert(be16(s[2], s[3]) == plen);
                assert(s.len() >= min_len);
                assert(s.subrange(4, 8) =~= k);
                assert(s.subrange(min_len, min_len + plen) =~= mp);
                lemma_mask_involutive(payload, k);
                assert(apply_mask_seq(mp, k) == payload);
                assert(decode_done_is(
                    decode_spec(true, false, s),
                    fin,
                    opcode,
                    payload,
                    s.len() as int,
                ));
            } else {
                assert(h[1] == 127u8);
                assert(length_code == 127);
                let min_len = 10 + 4int;
                assert(s.subrange(2, 10) =~= h.subrange(2, 10));
                lemma_be64_digits(plen as u64);
                assert(be64(s.subrange(2, 10)) == plen);
                assert(s.len() >= min_len);
                assert(s.subrange(10, 14) =~= k);
                assert(s.subrange(min_len, min_len + plen) =~= mp);
                lemma_mask_involutive(payload, k);
                assert(apply_mask_seq(mp, k) == payload);
                assert(decode_done_is(
                    decode_spec(true, false, s),
                    fin,
                    opcode,
                    payload,
                    s.len() as int,
                ));
            }
        },
        None => {
            let s = encoded_frame(fin, opcode, payload, None);
            assert(s == h + payload);
            assert(s[0] == b0);
            assert(s[1] == h[1]);
            assert(s[1] < 128);
            let length_code = s[1] % 128;
            if plen < 126 {
                assert(h[1] == plen as u8);
                assert(length_code == plen);
                assert(s.subrange(2, 2 + plen) =~= payload);
                assert(decode_done_is(
                    decode_spec(false, true, s),
                    fin,
                    opcode,
                    payload,
                    s.len() as int,
                ));
            } else if plen < 65536 {
                assert(h[1] == 126u8);
                assert(be16(s[2], s[3]) == plen);
                assert(s.subrange(4, 4 + plen) =~= payload);
                assert(decode_done_is(
                    decode_spec(false, true, s),
                    fin,
                    opcode,
                    payload,
                    s.len() as int,
                ));
            } else {
                assert(h[1] == 127u8);
                assert(s.subrange(2, 10) =~= h.subrange(2, 10));
                lemma_be64_digits(plen as u64);
                assert(be64(s.subrange(2, 10)) == plen);
                assert(s.subrange(10, 10 + plen) =~= payload);
                assert(decode_done_is(
                    decode_spec(false, true, s),
                    fin,
                    opcode,
                    payload,
                    s.len() as int,
                ));
            }
        },
    }
}

/// The wire value of an opcode is one of the six assigned nibbles, and
/// reading it back yields the same opcode.
pub proof fn lemma_opcode_facts(opcode: OpCode)
    ensures
        opcode_value(opcode) <= 15,
        opcode_of(opcode_value(opcode)) == Some(opcode),
{
}

/// The eight big-endian base-256 digits of a 64-bit value reassemble to
/// that value.
pub proof fn lemma_be64_digits(w: u64)
    ensures
        ((w / 0x100000000000000) % 256) * 0x100000000000000 + ((w / 0x1000000000000) % 256)
            * 0x1000000000000 + ((w / 0x10000000000) % 256) * 0x10000000000 + ((w / 0x100000000)
            % 256) * 0x100000000 + ((w / 0x1000000) % 256) * 0x1000000 + ((w / 0x10000) % 256)
            * 0x10000 + ((w / 0x100) % 256) * 0x100 + (w % 256) == w,
{
    assert(((w / 0x100000000000000) % 256) * 0x100000000000000 + ((w / 0x1000000000000) % 256)
        * 0x1000000000000 + ((w / 0x10000000000) % 256) * 0x10000000000 + ((w / 0x100000000) % 256)
        * 0x100000000 + ((w / 0x1000000) % 256) * 0x1000000 + ((w / 0x10000) % 256) * 0x10000 + ((w
        / 0x100) % 256) * 0x100 + (w % 256) == w) by (bit_vector);
}

/// A server's encoder never sets the mask bit; a client's encoder always
/// sets it and appends a key.
pub proof fn lemma_encoded_mask_bit(fin: bool, opcode: OpCode, payload: Seq<u8>, key: Seq<u8>)
    requires
        payload.len() <= usize::MAX,
        key.len() == 4,
    ensures
        encoded_frame(fin, opcode, payload, None)[1] < 128,
        encoded_frame(fin, opcode, payload, Some(key))[1] >= 128,
{
}

} // verus!
