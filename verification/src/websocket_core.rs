//! The connection core: fragment reassembly, the auto-responder, and the
//! sans-I/O read and write state machine. The caller feeds received
//! bytes in and transmits the byte vectors handed back.

use vstd::prelude::*;
use vstd::utf8::valid_utf8;

use crate::close_code::{close_code_allowed, close_code_of, close_code_value, CloseCode};
use crate::close_frame::CloseFrame;
use crate::codec::{
    be16, decode_spec, encoded_frame, encoded_frame_len, DecodeOutcome, FramesCodec,
};
use crate::error::{Error, FrameEncodeError, ProtocolError, ReadError, WriteError};
use crate::frame::Frame;
use crate::mask::{append_bytes, copy_bytes, copy_range};
use crate::message::{message_fits, message_opcode, message_payload, Message};
use crate::opcode::OpCode;
use crate::text::check_utf8;

verus! {

/// A fragmented message in progress: the opcode of its first frame and
/// how many payload bytes have been gathered.
#[derive(Debug)]
pub struct Fragmented {
    /// The opcode of the first fragment: Text or Binary.
    pub opcode: OpCode,
    /// The number of bytes gathered so far.
    pub index: usize,
}

/// The reassembly state: at most one fragmented message is in progress,
/// held as the opcode of its first frame and the bytes gathered so far
/// in a scratch buffer of fixed capacity.
#[derive(Debug)]
pub struct FragmentsState {
    /// The fragmented message in progress, if any.
    pub fragmented: Option<Fragmented>,
    /// The gathered fragment payloads.
    pub fragments_buffer: Vec<u8>,
    /// The capacity of the scratch buffer.
    pub capacity: usize,
}

impl FragmentsState {
    /// The buffer holds exactly the gathered bytes, within capacity, and
    /// a message in progress is a data message.
    pub open spec fn wf(&self) -> bool {
        &&& self.fragments_buffer@.len() <= self.capacity
        &&& match self.fragmented {
            Some(f) => f.index == self.fragments_buffer@.len() && (f.opcode == OpCode::Text
                || f.opcode == OpCode::Binary),
            None => self.fragments_buffer@.len() == 0,
        }
    }

    /// The reassembly state as a value: the first fragment's opcode and
    /// the gathered bytes, or nothing.
    pub open spec fn model(&self) -> Option<(OpCode, Seq<u8>)> {
        match self.fragmented {
            Some(f) => Some((f.opcode, self.fragments_buffer@)),
            None => None,
        }
    }

    /// A fresh state with a scratch buffer of `capacity` bytes.
    pub fn new(capacity: usize) -> (r: Self)
        ensures
            r.wf(),
            r.model() is None,
            r.capacity == capacity,
    {
        Self { fragmented: None, fragments_buffer: Vec::new(), capacity }
    }

    /// A state that can gather nothing: every fragment overflows it.
    pub fn empty() -> (r: Self)
        ensures
            r.wf(),
            r.model() is None,
            r.capacity == 0,
    {
        Self::new(0)
    }
}

/// A message, by its kind and plain contents.
pub enum MessageModel {
    /// A text message.
    Text(Seq<u8>),
    /// A binary message.
    Binary(Seq<u8>),
    /// A ping message.
    Ping(Seq<u8>),
    /// A pong message.
    Pong(Seq<u8>),
    /// A close message without a body.
    CloseNone,
    /// A close message with a code and a reason.
    CloseSome(CloseCode, Seq<u8>),
}

/// True when a message carries exactly the modelled contents.
pub open spec fn message_is(m: &Message, mm: MessageModel) -> bool {
    match mm {
        MessageModel::Text(p) => m matches Message::Text(v) && v@ == p,
        MessageModel::Binary(p) => m matches Message::Binary(v) && v@ == p,
        MessageModel::Ping(p) => m matches Message::Ping(v) && v@ == p,
        MessageModel::Pong(p) => m matches Message::Pong(v) && v@ == p,
        MessageModel::CloseNone => m matches Message::Close(c) && c is None,
        MessageModel::CloseSome(code, reason) => m matches Message::Close(c) && c matches Some(f)
            && f.code == code && f.reason@ == reason,
    }
}

/// What handling one frame yields.
pub enum OnFrameOutcome {
    /// A fragment was gathered; no message yet.
    Progress,
    /// A complete message.
    Surface(MessageModel),
    /// A protocol violation or an overflowing fragment.
    Reject(OnFrameError),
}

/// What parsing a close frame body yields.
pub enum CloseBody {
    /// An empty body.
    Empty,
    /// A code and a reason.
    Body(CloseCode, Seq<u8>),
    /// A malformed body.
    Bad(ProtocolError),
}

/// The body of a close frame: nothing, or a two-byte big-endian code
/// that must be one an endpoint may send, followed by a UTF-8 reason.
/// A one-byte body is malformed.
pub open spec fn close_body_spec(payload: Seq<u8>) -> CloseBody {
    if payload.len() == 0 {
        CloseBody::Empty
    } else if payload.len() == 1 {
        CloseBody::Bad(ProtocolError::InvalidCloseFrame)
    } else {
        let code = close_code_of(be16(payload[0], payload[1]) as u16);
        if !close_code_allowed(code) {
            CloseBody::Bad(ProtocolError::InvalidCloseCode)
        } else if !valid_utf8(payload.skip(2)) {
            CloseBody::Bad(ProtocolError::InvalidUTF8)
        } else {
            CloseBody::Body(code, payload.skip(2))
        }
    }
}

/// The reassembly state after one frame is handled.
pub open spec fn on_frame_state(
    st: Option<(OpCode, Seq<u8>)>,
    cap: nat,
    fin: bool,
    op: OpCode,
    payload: Seq<u8>,
) -> Option<(OpCode, Seq<u8>)> {
    match op {
        OpCode::Text | OpCode::Binary => {
            if st is Some {
                st
            } else if fin {
                None
            } else if payload.len() > cap {
                st
            } else {
                Some((op, payload))
            }
        },
        OpCode::Continuation => match st {
            None => None,
            Some((fop, buf)) => {
                if buf.len() + payload.len() > cap {
                    st
                } else if fin {
                    if fop == OpCode::Text && !valid_utf8(buf + payload) {
                        Some((fop, buf + payload))
                    } else {
                        None
                    }
                } else {
                    Some((fop, buf + payload))
                }
            },
        },
        _ => st,
    }
}

/// What handling one frame yields: data frames surface directly or are
/// gathered, continuations extend or complete the message in progress,
/// close bodies are parsed and checked, pings and pongs pass through.
pub open spec fn on_frame_outcome(
    st: Option<(OpCode, Seq<u8>)>,
    cap: nat,
    fin: bool,
    op: OpCode,
    payload: Seq<u8>,
) -> OnFrameOutcome {
    match op {
        OpCode::Text | OpCode::Binary => {
            if st is Some {
                OnFrameOutcome::Reject(
                    OnFrameError::Protocol(ProtocolError::InvalidFragment),
                )
            } else if fin {
                if op == OpCode::Text {
                    if valid_utf8(payload) {
                        OnFrameOutcome::Surface(MessageModel::Text(payload))
                    } else {
                        OnFrameOutcome::Reject(OnFrameError::Protocol(ProtocolError::InvalidUTF8))
                    }
                } else {
                    OnFrameOutcome::Surface(MessageModel::Binary(payload))
                }
            } else if payload.len() > cap {
                OnFrameOutcome::Reject(OnFrameError::FragmentsBufferTooSmall)
            } else {
                OnFrameOutcome::Progress
            }
        },
        OpCode::Continuation => match st {
            None => OnFrameOutcome::Reject(
                OnFrameError::Protocol(ProtocolError::InvalidContinuationFrame),
            ),
            Some((fop, buf)) => {
                if buf.len() + payload.len() > cap {
                    OnFrameOutcome::Reject(OnFrameError::FragmentsBufferTooSmall)
                } else if fin {
                    if fop == OpCode::Text {
                        if valid_utf8(buf + payload) {
                            OnFrameOutcome::Surface(MessageModel::Text(buf + payload))
                        } else {
                            OnFrameOutcome::Reject(
                                OnFrameError::Protocol(ProtocolError::InvalidUTF8),
                            )
                        }
                    } else {
                        OnFrameOutcome::Surface(MessageModel::Binary(buf + payload))
                    }
                } else {
                    OnFrameOutcome::Progress
                }
            },
        },
        OpCode::Close => match close_body_spec(payload) {
            CloseBody::Empty => OnFrameOutcome::Surface(MessageModel::CloseNone),
            CloseBody::Body(code, reason) => OnFrameOutcome::Surface(
                MessageModel::CloseSome(code, reason),
            ),
            CloseBody::Bad(e) => OnFrameOutcome::Reject(OnFrameError::Protocol(e)),
        },
        OpCode::Ping => OnFrameOutcome::Surface(MessageModel::Ping(payload)),
        OpCode::Pong => OnFrameOutcome::Surface(MessageModel::Pong(payload)),
    }
}

/// Relates an exec result to a modelled outcome.
pub open spec fn on_frame_matches(
    r: Result<Option<Message>, OnFrameError>,
    o: OnFrameOutcome,
) -> bool {
    match o {
        OnFrameOutcome::Progress => r matches Ok(None),
        OnFrameOutcome::Surface(mm) => r matches Ok(Some(m)) && message_is(&m, mm),
        OnFrameOutcome::Reject(e) => r matches Err(e2) && e2 == e,
    }
}

/// Every surfaced text payload and close reason is valid UTF-8, and
/// every surfaced close code is one an endpoint may send.
pub proof fn lemma_surfaced_text_and_close(
    st: Option<(OpCode, Seq<u8>)>,
    cap: nat,
    fin: bool,
    op: OpCode,
    payload: Seq<u8>,
)
    ensures
        on_frame_outcome(st, cap, fin, op, payload) matches OnFrameOutcome::Surface(mm) ==> match mm {
            MessageModel::Text(p) => valid_utf8(p),
            MessageModel::CloseSome(code, reason) => close_code_allowed(code) && valid_utf8(reason),
            _ => true,
        },
{
}

/// An error of the reassembler.
#[derive(Debug, Clone, Copy, PartialEq, Eq, Structural)]
pub enum OnFrameError {
    /// A protocol violation.
    Protocol(ProtocolError),
    /// The scratch buffer cannot hold the gathered message.
    FragmentsBufferTooSmall,
}

impl OnFrameError {
    /// The read error this reassembler error surfaces as.
    pub fn into_error(self) -> (r: Error)
        ensures
            self matches OnFrameError::Protocol(p) ==> r == Error::Read(ReadError::Protocol(p)),
            self == OnFrameError::FragmentsBufferTooSmall ==> r == Error::Read(
                ReadError::FragmentsBufferTooSmall,
            ),
    {
        match self {
            OnFrameError::Protocol(err) => Error::Read(ReadError::Protocol(err)),
            OnFrameError::FragmentsBufferTooSmall => Error::Read(ReadError::FragmentsBufferTooSmall),
        }
    }
}

/// Parses the body of a close frame: an empty body stands for no close
/// frame; otherwise the code must be one an endpoint may send and the
/// reason must be valid UTF-8.
pub fn extract_close_frame(frame: &Frame) -> (r: Result<Option<CloseFrame>, ProtocolError>)
    ensures
        match close_body_spec(frame.payload@) {
            CloseBody::Empty => r matches Ok(c) && c is None,
            CloseBody::Body(code, reason) => r matches Ok(c) && c matches Some(f) && f.code == code
                && f.reason@ == reason && f.wf(),
            CloseBody::Bad(e) => r matches Err(e2) && e2 == e,
        },
{
    let payload = frame.payload();
    if payload.len() == 0 {
        return Ok(None);
    }
    if payload.len() == 1 {
        return Err(ProtocolError::InvalidCloseFrame);
    }
    let wire: u16 = (payload[0] as u16) * 256 + (payload[1] as u16);
    let code = CloseCode::from_u16(wire);
    if !code.is_allowed() {
        return Err(ProtocolError::InvalidCloseCode);
    }
    let reason = copy_range(payload, 2, payload.len());
    if !check_utf8(&reason) {
        return Err(ProtocolError::InvalidUTF8);
    }
    Ok(Some(CloseFrame::new(code, reason)))
}

/// Handles one decoded frame against the reassembly state.
pub fn on_frame(fragments_state: &mut FragmentsState, frame: &Frame) -> (r: Result<
    Option<Message>,
    OnFrameError,
>)
    requires
        old(fragments_state).wf(),
    ensures
        final(fragments_state).wf(),
        final(fragments_state).capacity == old(fragments_state).capacity,
        final(fragments_state).model() == on_frame_state(
            old(fragments_state).model(),
            old(fragments_state).capacity as nat,
            frame.fin,
            frame.opcode,
            frame.payload@,
        ),
        on_frame_matches(
            r,
            on_frame_outcome(
                old(fragments_state).model(),
                old(fragments_state).capacity as nat,
                frame.fin,
                frame.opcode,
                frame.payload@,
            ),
        ),
{
    match frame.opcode() {
        OpCode::Text | OpCode::Binary => {
            if fragments_state.fragmented.is_some() {
                return Err(OnFrameError::Protocol(ProtocolError::InvalidFragment));
            }
            if frame.is_final() {
                if matches!(frame.opcode(), OpCode::Binary) {
                    return Ok(Some(Message::Binary(copy_bytes(frame.payload()))));
                }
                if check_utf8(frame.payload()) {
                    return Ok(Some(Message::Text(copy_bytes(frame.payload()))));
                }
                return Err(OnFrameError::Protocol(ProtocolError::InvalidUTF8));
            }
            if frame.payload().len() > fragments_state.capacity {
                return Err(OnFrameError::FragmentsBufferTooSmall);
            }
            fragments_state.fragments_buffer = copy_bytes(frame.payload());
            fragments_state.fragmented = Some(
                Fragmented { opcode: frame.opcode(), index: frame.payload().len() },
            );
            Ok(None)
        },
        OpCode::Continuation => {
            let fop = match &fragments_state.fragmented {
                None => {
                    return Err(OnFrameError::Protocol(ProtocolError::InvalidContinuationFrame));
                },
                Some(fragmented) => fragmented.opcode,
            };
            if frame.payload().len() > fragments_state.capacity
                || fragments_state.fragments_buffer.len() > fragments_state.capacity
                - frame.payload().len() {
                return Err(OnFrameError::FragmentsBufferTooSmall);
            }
            append_bytes(&mut fragments_state.fragments_buffer, frame.payload());
            fragments_state.fragmented = Some(
                Fragmented { opcode: fop, index: fragments_state.fragments_buffer.len() },
            );
            if !frame.is_final() {
                return Ok(None);
            }
            let message = if matches!(fop, OpCode::Text) {
                if !check_utf8(&fragments_state.fragments_buffer) {
                    return Err(OnFrameError::Protocol(ProtocolError::InvalidUTF8));
                }
                Message::Text(copy_bytes(&fragments_state.fragments_buffer))
            } else {
                Message::Binary(copy_bytes(&fragments_state.fragments_buffer))
            };
            fragments_state.fragmented = None;
            fragments_state.fragments_buffer = Vec::new();
            Ok(Some(message))
        },
        OpCode::Close => {
            match extract_close_frame(frame) {
                Ok(close_frame) => Ok(Some(Message::Close(close_frame))),
                Err(err) => Err(OnFrameError::Protocol(err)),
            }
        },
        OpCode::Ping => Ok(Some(Message::Ping(copy_bytes(frame.payload())))),
        OpCode::Pong => Ok(Some(Message::Pong(copy_bytes(frame.payload())))),
    }
}

/// Which frames are answered without surfacing them.
#[derive(Debug, Clone, Copy, PartialEq, Eq, Structural)]
pub struct Auto {
    /// Answer pings with pongs.
    pub pong: bool,
    /// Answer close frames and mark the connection closed.
    pub close: bool,
}

impl Auto {
    /// Both answers on: the default.
    pub fn positive() -> (r: Self)
        ensures
            r.pong,
            r.close,
    {
        Self { pong: true, close: true }
    }
}

/// The connection state: whether a close frame went over the connection
/// in either direction, and the auto-responder switches.
#[derive(Debug, Clone, Copy, PartialEq, Eq, Structural)]
pub struct ConnectionState {
    /// True once a close frame was sent or received; every further send
    /// is refused.
    pub closed: bool,
    /// The auto-responder switches.
    pub auto: Auto,
}

impl ConnectionState {
    /// An open connection with both automatic answers on.
    pub fn new() -> (r: Self)
        ensures
            !r.closed,
            r.auto.pong,
            r.auto.close,
    {
        Self { closed: false, auto: Auto::positive() }
    }
}

/// What the auto-responder decides for one frame.
pub enum OnFrame {
    /// Answer with this message instead of surfacing the frame.
    Send(Message),
    /// Hand the frame on to the reassembler.
    Noop(Frame),
}

/// The auto-responder's decision, modelled: a ping is answered with a
/// pong carrying the same payload; a close frame on an open connection
/// is answered with a close echoing its code and reason (or a normal
/// closure when it had no body), with malformed close bodies rejected;
/// everything else passes through.
pub enum AutoOutcome {
    /// Answer with a pong carrying this payload.
    SendPong(Seq<u8>),
    /// Answer with a close carrying this code and reason.
    SendClose(CloseCode, Seq<u8>),
    /// Hand the frame on.
    Pass,
    /// The close body is malformed.
    Bad(ProtocolError),
}

/// The auto-responder's decision for one frame.
pub open spec fn auto_spec(
    pong: bool,
    close: bool,
    closed: bool,
    op: OpCode,
    payload: Seq<u8>,
) -> AutoOutcome {
    if pong && op == OpCode::Ping {
        AutoOutcome::SendPong(payload)
    } else if close && op == OpCode::Close && !closed {
        match close_body_spec(payload) {
            CloseBody::Empty => AutoOutcome::SendClose(CloseCode::Normal, Seq::<u8>::empty()),
            CloseBody::Body(code, reason) => AutoOutcome::SendClose(code, reason),
            CloseBody::Bad(e) => AutoOutcome::Bad(e),
        }
    } else {
        AutoOutcome::Pass
    }
}

/// Decides whether a frame is answered automatically, as the connection
/// state asks.
pub fn auto_respond(state: &ConnectionState, frame: Frame) -> (r: Result<OnFrame, ProtocolError>)
    ensures
        match auto_spec(state.auto.pong, state.auto.close, state.closed, frame.opcode, frame.payload@) {
            AutoOutcome::SendPong(p) => r matches Ok(d) && d matches OnFrame::Send(m) && message_is(
                &m,
                MessageModel::Pong(p),
            ),
            AutoOutcome::SendClose(code, reason) => r matches Ok(d) && d matches OnFrame::Send(m)
                && message_is(&m, MessageModel::CloseSome(code, reason)),
            AutoOutcome::Pass => r matches Ok(d) && d matches OnFrame::Noop(f) && f == frame,
            AutoOutcome::Bad(e) => r matches Err(e2) && e2 == e,
        },
{
    if state.auto.pong && matches!(frame.opcode(), OpCode::Ping) {
        return Ok(OnFrame::Send(Message::Pong(copy_bytes(frame.payload()))));
    }
    if state.auto.close && matches!(frame.opcode(), OpCode::Close) && !state.closed {
        let close_frame = match extract_close_frame(&frame) {
            Ok(close_frame) => close_frame,
            Err(err) => {
                return Err(err);
            },
        };
        match close_frame {
            Some(body) => {
                return Ok(OnFrame::Send(Message::Close(Some(body))));
            },
            None => {
                return Ok(OnFrame::Send(Message::Close(Some(CloseFrame::no_reason(
                    CloseCode::Normal,
                )))));
            },
        }
    }
    Ok(OnFrame::Noop(frame))
}

/// True when `v` is a correctly encoded frame for this codec role: a
/// client frame is masked with some 4-byte key, any other frame is the
/// plain encoding.
pub open spec fn sent_frame_ok(
    v: Seq<u8>,
    is_client: bool,
    fin: bool,
    op: OpCode,
    payload: Seq<u8>,
) -> bool {
    if is_client {
        exists|k: Seq<u8>| k.len() == 4 && v == encoded_frame(fin, op, payload, Some(k))
    } else {
        v == encoded_frame(fin, op, payload, None)
    }
}

/// The concatenated encodings of a sequence of frames, unmasked.
pub open spec fn encoded_fragments_plain(frames: Seq<(bool, OpCode, Seq<u8>)>) -> Seq<u8>
    decreases frames.len(),
{
    if frames.len() == 0 {
        Seq::<u8>::empty()
    } else {
        encoded_frame(frames[0].0, frames[0].1, frames[0].2, None) + encoded_fragments_plain(
            frames.drop_first(),
        )
    }
}

/// The concatenated encodings of a sequence of frames, the i-th masked
/// with the i-th key.
pub open spec fn encoded_fragments_keyed(
    frames: Seq<(bool, OpCode, Seq<u8>)>,
    keys: Seq<Seq<u8>>,
) -> Seq<u8>
    decreases frames.len(),
{
    if frames.len() == 0 {
        Seq::<u8>::empty()
    } else {
        encoded_frame(frames[0].0, frames[0].1, frames[0].2, Some(keys[0]))
            + encoded_fragments_keyed(frames.drop_first(), keys.drop_first())
    }
}

/// Appending one frame appends its encoding.
proof fn lemma_encoded_fragments_plain_push(
    frames: Seq<(bool, OpCode, Seq<u8>)>,
    f: (bool, OpCode, Seq<u8>),
)
    ensures
        encoded_fragments_plain(frames.push(f)) =~= encoded_fragments_plain(frames)
            + encoded_frame(f.0, f.1, f.2, None),
    decreases frames.len(),
{
    if frames.len() == 0 {
        assert(frames.push(f).drop_first() =~~= frames);
        assert(frames.push(f)[0] == f);
    } else {
        assert(frames.push(f).drop_first() =~~= frames.drop_first().push(f));
        lemma_encoded_fragments_plain_push(frames.drop_first(), f);
        assert(frames.push(f)[0] == frames[0]);
    }
}

/// Appending one frame and its key appends the keyed encoding.
proof fn lemma_encoded_fragments_keyed_push(
    frames: Seq<(bool, OpCode, Seq<u8>)>,
    keys: Seq<Seq<u8>>,
    f: (bool, OpCode, Seq<u8>),
    k: Seq<u8>,
)
    requires
        frames.len() == keys.len(),
    ensures
        encoded_fragments_keyed(frames.push(f), keys.push(k)) =~= encoded_fragments_keyed(
            frames,
            keys,
        ) + encoded_frame(f.0, f.1, f.2, Some(k)),
    decreases frames.len(),
{
    if frames.len() == 0 {
        assert(frames.push(f).drop_first() =~~= frames);
        assert(keys.push(k).drop_first() =~~= keys);
        assert(frames.push(f)[0] == f);
        assert(keys.push(k)[0] == k);
    } else {
        assert(frames.push(f).drop_first() =~~= frames.drop_first().push(f));
        assert(keys.push(k).drop_first() =~~= keys.drop_first().push(k));
        lemma_encoded_fragments_keyed_push(frames.drop_first(), keys.drop_first(), f, k);
        assert(frames.push(f)[0] == frames[0]);
        assert(keys.push(k)[0] == keys[0]);
    }
}

/// What the caller must do next to move the connection forward.
#[derive(Debug)]
pub enum Step {
    /// No complete frame is buffered: read from the transport and feed
    /// the bytes in.
    Read,
    /// Progress was made without a message: call again.
    Again,
    /// A message for the caller.
    Message(Message),
    /// An automatic answer: transmit these bytes, then call again.
    Write(Vec<u8>),
    /// An automatic close answer: transmit these bytes, then treat the
    /// stream as ended.
    WriteClose(Vec<u8>),
    /// The connection failed.
    Fail(Error),
}

/// The connection core: the frame codec, the reassembly state, the
/// connection state, and the buffered received bytes. It performs no
/// I/O: received bytes are fed in, and bytes to transmit are returned.
#[derive(Debug)]
pub struct WebSocketCore<R> {
    /// The frame codec.
    pub codec: FramesCodec<R>,
    /// The reassembly state.
    pub fragments_state: FragmentsState,
    /// The connection state.
    pub state: ConnectionState,
    /// Received bytes not yet decoded.
    pub read_buffer: Vec<u8>,
    /// The capacity of the read buffer.
    pub read_capacity: usize,
    /// The capacity granted to each outgoing frame.
    pub write_capacity: usize,
}

impl<R> WebSocketCore<R> {
    /// The reassembly state is well formed and the buffered bytes fit
    /// the read capacity.
    pub open spec fn wf(&self) -> bool {
        self.fragments_state.wf() && self.read_buffer@.len() <= self.read_capacity
    }

    /// A fresh core with both role flags off.
    pub fn new(rng: R, read_capacity: usize, write_capacity: usize, fragments_capacity: usize) -> (r:
        Self)
        ensures
            r.wf(),
            !r.codec.unmask,
            !r.codec.mask,
            !r.state.closed,
            r.state.auto.pong,
            r.state.auto.close,
            r.fragments_state.model() is None,
            r.fragments_state.capacity == fragments_capacity,
            r.read_buffer@.len() == 0,
            r.read_capacity == read_capacity,
            r.write_capacity == write_capacity,
    {
        Self {
            codec: FramesCodec::new(rng),
            fragments_state: FragmentsState::new(fragments_capacity),
            state: ConnectionState::new(),
            read_buffer: Vec::new(),
            read_capacity,
            write_capacity,
        }
    }

    /// A fresh client core: it masks outgoing frames and expects
    /// unmasked incoming frames.
    pub fn client(rng: R, read_capacity: usize, write_capacity: usize, fragments_capacity: usize) -> (r:
        Self)
        ensures
            r.wf(),
            !r.codec.unmask,
            r.codec.mask,
            r.codec.spec_is_client(),
            !r.state.closed,
            r.state.auto.pong,
            r.state.auto.close,
            r.fragments_state.model() is None,
            r.fragments_state.capacity == fragments_capacity,
            r.read_buffer@.len() == 0,
            r.read_capacity == read_capacity,
            r.write_capacity == write_capacity,
    {
        let mut r = Self::new(rng, read_capacity, write_capacity, fragments_capacity);
        r.codec.set_mask(true);
        r.codec.set_unmask(false);
        r
    }

    /// A fresh server core: it unmasks incoming frames and sends
    /// unmasked frames.
    pub fn server(rng: R, read_capacity: usize, write_capacity: usize, fragments_capacity: usize) -> (r:
        Self)
        ensures
            r.wf(),
            r.codec.unmask,
            !r.codec.mask,
            r.codec.spec_is_server(),
            !r.state.closed,
            r.state.auto.pong,
            r.state.auto.close,
            r.fragments_state.model() is None,
            r.fragments_state.capacity == fragments_capacity,
            r.read_buffer@.len() == 0,
            r.read_capacity == read_capacity,
            r.write_capacity == write_capacity,
    {
        let mut r = Self::new(rng, read_capacity, write_capacity, fragments_capacity);
        r.codec.set_mask(false);
        r.codec.set_unmask(true);
        r
    }

    /// Switches the automatic pong answer.
    pub fn set_auto_pong(&mut self, auto_pong: bool)
        ensures
            final(self).state.auto.pong == auto_pong,
            final(self).state.auto.close == old(self).state.auto.close,
            final(self).state.closed == old(self).state.closed,
            final(self).codec == old(self).codec,
            final(self).fragments_state == old(self).fragments_state,
            final(self).read_buffer == old(self).read_buffer,
            final(self).read_capacity == old(self).read_capacity,
            final(self).write_capacity == old(self).write_capacity,
    {
        self.state.auto.pong = auto_pong;
    }

    /// Switches the automatic close answer.
    pub fn set_auto_close(&mut self, auto_close: bool)
        ensures
            final(self).state.auto.close == auto_close,
            final(self).state.auto.pong == old(self).state.auto.pong,
            final(self).state.closed == old(self).state.closed,
            final(self).codec == old(self).codec,
            final(self).fragments_state == old(self).fragments_state,
            final(self).read_buffer == old(self).read_buffer,
            final(self).read_capacity == old(self).read_capacity,
            final(self).write_capacity == old(self).write_capacity,
    {
        self.state.auto.close = auto_close;
    }

    /// The number of buffered bytes not yet decoded.
    pub fn framable(&self) -> (r: usize)
        ensures
            r == self.read_buffer@.len(),
    {
        self.read_buffer.len()
    }

    /// Buffers received bytes for decoding; bytes that would overflow
    /// the read buffer are refused.
    pub fn feed(&mut self, data: &Vec<u8>) -> (r: Result<(), ReadError>)
        ensures
            final(self).codec == old(self).codec,
            final(self).fragments_state == old(self).fragments_state,
            final(self).state == old(self).state,
            final(self).read_capacity == old(self).read_capacity,
            final(self).write_capacity == old(self).write_capacity,
            old(self).read_buffer@.len() + data@.len() > old(self).read_capacity ==> r == Err::<
                (),
                _,
            >(ReadError::ReadBufferTooSmall) && final(self).read_buffer == old(self).read_buffer,
            old(self).read_buffer@.len() + data@.len() <= old(self).read_capacity ==> r is Ok
                && final(self).read_buffer@ == old(self).read_buffer@ + data@,
    {
        if data.len() > self.read_capacity || self.read_buffer.len() > self.read_capacity
            - data.len() {
            return Err(ReadError::ReadBufferTooSmall);
        }
        append_bytes(&mut self.read_buffer, data);
        Ok(())
    }
}

impl WebSocketCore<rand::rngs::StdRng> {
    /// Encodes one message for transmission. A close message marks the
    /// connection closed; once it is closed, every send is refused.
    pub fn send(&mut self, message: &Message) -> (r: Result<Vec<u8>, WriteError>)
        requires
            message_fits(message),
        ensures
            final(self).codec.unmask == old(self).codec.unmask,
            final(self).codec.mask == old(self).codec.mask,
            final(self).fragments_state == old(self).fragments_state,
            final(self).read_buffer == old(self).read_buffer,
            final(self).read_capacity == old(self).read_capacity,
            final(self).write_capacity == old(self).write_capacity,
            final(self).state.auto == old(self).state.auto,
            old(self).state.closed ==> r == Err::<Vec<u8>, _>(WriteError::ConnectionClosed)
                && final(self).state == old(self).state,
            !old(self).state.closed ==> {
                &&& final(self).state.closed == (message matches Message::Close(_))
                &&& (r is Ok) <==> encoded_frame_len(
                    (message_payload(message).len() as usize),
                    old(self).codec.spec_is_client(),
                ) <= old(self).write_capacity
                &&& (r matches Ok(v) ==> sent_frame_ok(
                    v@,
                    old(self).codec.spec_is_client(),
                    true,
                    message_opcode(message),
                    message_payload(message),
                ))
                &&& (r matches Err(e) ==> e == WriteError::WriteFrame(
                    FrameEncodeError::BufferTooSmall,
                ))
            },
    {
        if self.state.closed {
            return Err(WriteError::ConnectionClosed);
        }
        self.state.closed = message.is_close();
        match self.codec.encode(message, self.write_capacity) {
            Ok(v) => Ok(v),
            Err(e) => Err(WriteError::WriteFrame(e)),
        }
    }

    /// Encodes one data message as a sequence of fragment frames of
    /// `fragment_size` bytes each, concatenated in transmission order.
    /// Once the connection is closed, every send is refused.
    pub fn send_fragmented(&mut self, message: &Message, fragment_size: usize) -> (r: Result<
        Vec<u8>,
        Error,
    >)
        requires
            message_fits(message),
        ensures
            final(self).codec.unmask == old(self).codec.unmask,
            final(self).codec.mask == old(self).codec.mask,
            final(self).fragments_state == old(self).fragments_state,
            final(self).read_buffer == old(self).read_buffer,
            final(self).read_capacity == old(self).read_capacity,
            final(self).write_capacity == old(self).write_capacity,
            final(self).state == old(self).state,
            old(self).state.closed ==> r == Err::<Vec<u8>, _>(
                Error::Write(WriteError::ConnectionClosed),
            ),
            !old(self).state.closed && fragment_size == 0 ==> r == Err::<Vec<u8>, _>(
                Error::Fragmentation(crate::error::FragmentationError::InvalidFragmentSize),
            ),
            !old(self).state.closed && fragment_size >= 1 && !(message matches Message::Text(_))
                && !(message matches Message::Binary(_)) ==> r == Err::<Vec<u8>, _>(
                Error::Fragmentation(crate::error::FragmentationError::CanNotBeFragmented),
            ),
            !old(self).state.closed && fragment_size >= 1 && (message matches Message::Text(_)
                || message matches Message::Binary(_)) ==> {
                let frames = crate::fragments::fragment_frames(
                    message_opcode(message),
                    message_payload(message),
                    fragment_size as nat,
                );
                &&& (r matches Ok(_) ==> forall|i: int|
                    0 <= i < frames.len() ==> encoded_frame_len(
                        (frames[i].2.len() as usize),
                        old(self).codec.spec_is_client(),
                    ) <= old(self).write_capacity)
                &&& (r matches Err(_) ==> exists|i: int|
                    0 <= i < frames.len() && encoded_frame_len(
                        (frames[i].2.len() as usize),
                        old(self).codec.spec_is_client(),
                    ) > old(self).write_capacity)
                &&& (r matches Ok(v) ==> (if old(self).codec.spec_is_client() {
                    exists|keys: Seq<Seq<u8>>|
                        keys.len() == frames.len() && (forall|i: int|
                            0 <= i < keys.len() ==> keys[i].len() == 4) && v@
                            == encoded_fragments_keyed(frames, keys)
                } else {
                    v@ == encoded_fragments_plain(frames)
                }))
                &&& (r matches Err(e) ==> e == Error::Write(
                    WriteError::WriteFrame(FrameEncodeError::BufferTooSmall),
                ))
            },
    {
        if self.state.closed {
            return Err(Error::Write(WriteError::ConnectionClosed));
        }
        let ghost is_client = self.codec.spec_is_client();
        let ghost frames = crate::fragments::fragment_frames(
            message_opcode(message),
            message_payload(message),
            fragment_size as nat,
        );
        let mut it = match message.fragments(fragment_size) {
            Ok(it) => it,
            Err(e) => {
                return Err(Error::Fragmentation(e));
            },
        };
        let mut out: Vec<u8> = Vec::new();
        let ghost mut emitted: Seq<(bool, OpCode, Seq<u8>)> = Seq::empty();
        let ghost mut keys: Seq<Seq<u8>> = Seq::empty();
        proof {
            assert(emitted + it.remaining() =~~= frames);
            assert(encoded_fragments_plain(emitted) =~= Seq::<u8>::empty());
            assert(encoded_fragments_keyed(emitted, keys) =~= Seq::<u8>::empty());
        }
        loop
            invariant
                !old(self).state.closed,
                fragment_size >= 1,
                message matches Message::Text(_) || message matches Message::Binary(_),
                frames == crate::fragments::fragment_frames(
                    message_opcode(message),
                    message_payload(message),
                    fragment_size as nat,
                ),
                is_client == old(self).codec.spec_is_client(),
                it.wf(),
                emitted + it.remaining() =~~= frames,
                is_client ==> keys.len() == emitted.len(),
                forall|i: int| 0 <= i < keys.len() ==> keys[i].len() == 4,
                is_client ==> out@ == encoded_fragments_keyed(emitted, keys),
                !is_client ==> out@ == encoded_fragments_plain(emitted),
                forall|i: int|
                    0 <= i < emitted.len() ==> encoded_frame_len(
                        (emitted[i].2.len() as usize),
                        is_client,
                    ) <= self.write_capacity,
                self.codec.spec_is_client() == is_client,
                self.codec.unmask == old(self).codec.unmask,
                self.codec.mask == old(self).codec.mask,
                self.fragments_state == old(self).fragments_state,
                self.read_buffer == old(self).read_buffer,
                self.read_capacity == old(self).read_capacity,
                self.write_capacity == old(self).write_capacity,
                self.state == old(self).state,
            ensures
                it.remaining().len() == 0,
            decreases it.remaining().len(),
        {
            let ghost pre_rem = it.remaining();
            let frame = match it.next() {
                Some(frame) => frame,
                None => {
                    break ;
                },
            };
            proof {
                assert(frames[emitted.len() as int] == pre_rem[0]);
                assert(frame.payload@ == pre_rem[0].2);
            }
            match self.codec.encode_frame(&frame, self.write_capacity) {
                Ok(v) => {
                    append_bytes(&mut out, &v);
                    proof {
                        let f = (frame.fin, frame.opcode, frame.payload@);
                        assert(f == pre_rem[0]);
                        if is_client {
                            let k = choose|k: Seq<u8>|
                                k.len() == 4 && v@ == encoded_frame(
                                    frame.fin,
                                    frame.opcode,
                                    frame.payload@,
                                    Some(k),
                                );
                            lemma_encoded_fragments_keyed_push(emitted, keys, f, k);
                            keys = keys.push(k);
                        } else {
                            lemma_encoded_fragments_plain_push(emitted, f);
                        }
                        let prev = emitted;
                        emitted = emitted.push(f);
                        assert(emitted + it.remaining() =~~= prev + pre_rem);
                        assert(emitted + it.remaining() =~~= frames);
                        assert forall|i: int|
                            0 <= i < emitted.len() implies encoded_frame_len(
                            (emitted[i].2.len() as usize),
                            is_client,
                        ) <= self.write_capacity by {
                            if i < emitted.len() - 1 {
                                assert(emitted[i] == prev[i]);
                            } else {
                                assert(emitted[i] == f);
                            }
                        }
                    }
                },
                Err(_) => {
                    proof {
                        let bad = emitted.len() as int;
                        assert(pre_rem.len() > 0);
                        assert(0 <= bad < frames.len());
                        assert(frames[bad].2 == frame.payload@);
                        assert(encoded_frame_len(
                            (frames[bad].2.len() as usize),
                            old(self).codec.spec_is_client(),
                        ) > old(self).write_capacity);
                        assert(exists|i: int|
                            0 <= i < frames.len() && encoded_frame_len(
                                (frames[i].2.len() as usize),
                                old(self).codec.spec_is_client(),
                            ) > old(self).write_capacity);
                    }
                    return Err(Error::Write(WriteError::WriteFrame(
                        FrameEncodeError::BufferTooSmall,
                    )));
                },
            }
        }
        proof {
            assert(emitted + it.remaining() =~~= emitted);
            assert(emitted =~~= frames);
            if is_client {
                assert(keys.len() == frames.len() && (forall|i: int|
                    0 <= i < keys.len() ==> keys[i].len() == 4) && out@ == encoded_fragments_keyed(
                    frames,
                    keys,
                ));
            } else {
                assert(out@ == encoded_fragments_plain(frames));
            }
        }
        Ok(out)
    }
}

impl WebSocketCore<rand::rngs::StdRng> {
    /// Moves the connection forward by one frame: decodes the frame at
    /// the head of the read buffer, lets the auto-responder answer pings
    /// and close frames, and hands everything else to the reassembler.
    pub fn next_step(&mut self) -> (r: Step)
        requires
            old(self).wf(),
        ensures
            final(self).wf(),
            final(self).codec.unmask == old(self).codec.unmask,
            final(self).codec.mask == old(self).codec.mask,
            final(self).read_capacity == old(self).read_capacity,
            final(self).write_capacity == old(self).write_capacity,
            final(self).fragments_state.capacity == old(self).fragments_state.capacity,
            final(self).state.auto == old(self).state.auto,
            match decode_spec(old(self).codec.unmask, old(self).codec.mask, old(self).read_buffer@) {
                DecodeOutcome::Incomplete => r matches Step::Read && final(self).read_buffer
                    == old(self).read_buffer && final(self).fragments_state == old(self).fragments_state && final(self).state == old(self).state,
                DecodeOutcome::Fail(e) => (r matches Step::Fail(err) && err == Error::Read(
                    ReadError::ReadFrame(e),
                )) && final(self).read_buffer == old(self).read_buffer && final(self).fragments_state == old(self).fragments_state && final(self).state == old(self).state,
                DecodeOutcome::Done(m) => {
                    &&& final(self).read_buffer@ == old(self).read_buffer@.skip(m.consumed)
                    &&& match auto_spec(
                        old(self).state.auto.pong,
                        old(self).state.auto.close,
                        old(self).state.closed,
                        m.opcode,
                        m.payload,
                    ) {
                        AutoOutcome::Bad(p) => {
                            &&& r matches Step::Fail(err) && err == Error::Read(
                                ReadError::Protocol(p),
                            )
                            &&& final(self).fragments_state == old(self).fragments_state
                            &&& final(self).state == old(self).state
                        },
                        AutoOutcome::SendPong(p) => {
                            &&& final(self).fragments_state == old(self).fragments_state
                            &&& final(self).state.closed == false
                            &&& if encoded_frame_len(
                                (p.len() as usize),
                                old(self).codec.spec_is_client(),
                            ) <= old(self).write_capacity {
                                r matches Step::Write(v) && sent_frame_ok(
                                    v@,
                                    old(self).codec.spec_is_client(),
                                    true,
                                    OpCode::Pong,
                                    p,
                                )
                            } else {
                                r matches Step::Fail(err) && err == Error::Write(
                                    WriteError::WriteFrame(FrameEncodeError::BufferTooSmall),
                                )
                            }
                        },
                        AutoOutcome::SendClose(code, reason) => {
                            &&& final(self).fragments_state == old(self).fragments_state
                            &&& final(self).state.closed == true
                            &&& ({
                                let cp = seq![
                                    ((close_code_value(code) / 256) as u8),
                                    ((close_code_value(code) % 256) as u8),
                                ] + reason;
                                if encoded_frame_len(
                                    (cp.len() as usize),
                                    old(self).codec.spec_is_client(),
                                ) <= old(self).write_capacity {
                                    r matches Step::WriteClose(v) && sent_frame_ok(
                                        v@,
                                        old(self).codec.spec_is_client(),
                                        true,
                                        OpCode::Close,
                                        cp,
                                    )
                                } else {
                                    r matches Step::Fail(err) && err == Error::Write(
                                        WriteError::WriteFrame(FrameEncodeError::BufferTooSmall),
                                    )
                                }
                            })
                        },
                        AutoOutcome::Pass => {
                            &&& final(self).state == old(self).state
                            &&& final(self).fragments_state.model() == on_frame_state(
                                old(self).fragments_state.model(),
                                old(self).fragments_state.capacity as nat,
                                m.fin,
                                m.opcode,
                                m.payload,
                            )
                            &&& match on_frame_outcome(
                                old(self).fragments_state.model(),
                                old(self).fragments_state.capacity as nat,
                                m.fin,
                                m.opcode,
                                m.payload,
                            ) {
                                OnFrameOutcome::Progress => r matches Step::Again,
                                OnFrameOutcome::Surface(mm) => r matches Step::Message(msg)
                                    && message_is(&msg, mm),
                                OnFrameOutcome::Reject(e) => r matches Step::Fail(err) && match e {
                                    OnFrameError::Protocol(p) => err == Error::Read(
                                        ReadError::Protocol(p),
                                    ),
                                    OnFrameError::FragmentsBufferTooSmall => err == Error::Read(
                                        ReadError::FragmentsBufferTooSmall,
                                    ),
                                },
                            }
                        },
                    }
                },
            },
    {
        proof {
            crate::codec::lemma_decoded_frame_well_formed(
                self.codec.unmask,
                self.codec.mask,
                self.read_buffer@,
            );
        }
        let (frame, consumed) = match self.codec.decode(&self.read_buffer) {
            Ok(None) => {
                return Step::Read;
            },
            Err(e) => {
                return Step::Fail(Error::Read(ReadError::ReadFrame(e)));
            },
            Ok(Some((frame, consumed))) => (frame, consumed),
        };
        let rest = copy_range(&self.read_buffer, consumed, self.read_buffer.len());
        self.read_buffer = rest;
        match auto_respond(&self.state, frame) {
            Err(p) => Step::Fail(Error::Read(ReadError::Protocol(p))),
            Ok(OnFrame::Send(msg)) => {
                self.state.closed = msg.is_close();
                match self.codec.encode(&msg, self.write_capacity) {
                    Ok(v) => {
                        if self.state.closed {
                            Step::WriteClose(v)
                        } else {
                            Step::Write(v)
                        }
                    },
                    Err(_) => Step::Fail(Error::Write(WriteError::WriteFrame(
                        FrameEncodeError::BufferTooSmall,
                    ))),
                }
            },
            Ok(OnFrame::Noop(frame)) => {
                match on_frame(&mut self.fragments_state, &frame) {
                    Ok(None) => Step::Again,
                    Ok(Some(msg)) => Step::Message(msg),
                    Err(e) => Step::Fail(e.into_error()),
                }
            },
        }
    }
}

impl<R> WebSocketCore<R> {
    /// Moves the connection forward by one frame without automatic
    /// answers: the read half of a split connection cannot write.
    pub fn next_step_no_auto(&mut self) -> (r: Step)
        requires
            old(self).wf(),
        ensures
            final(self).wf(),
            final(self).codec == old(self).codec,
            final(self).read_capacity == old(self).read_capacity,
            final(self).write_capacity == old(self).write_capacity,
            final(self).fragments_state.capacity == old(self).fragments_state.capacity,
            final(self).state == old(self).state,
            match decode_spec(old(self).codec.unmask, old(self).codec.mask, old(self).read_buffer@) {
                DecodeOutcome::Incomplete => r matches Step::Read && final(self).read_buffer
                    == old(self).read_buffer && final(self).fragments_state == old(self).fragments_state,
                DecodeOutcome::Fail(e) => (r matches Step::Fail(err) && err == Error::Read(
                    ReadError::ReadFrame(e),
                )) && final(self).read_buffer == old(self).read_buffer && final(self).fragments_state == old(self).fragments_state,
                DecodeOutcome::Done(m) => {
                    &&& final(self).read_buffer@ == old(self).read_buffer@.skip(m.consumed)
                    &&& final(self).fragments_state.model() == on_frame_state(
                        old(self).fragments_state.model(),
                        old(self).fragments_state.capacity as nat,
                        m.fin,
                        m.opcode,
                        m.payload,
                    )
                    &&& match on_frame_outcome(
                        old(self).fragments_state.model(),
                        old(self).fragments_state.capacity as nat,
                        m.fin,
                        m.opcode,
                        m.payload,
                    ) {
                        OnFrameOutcome::Progress => r matches Step::Again,
                        OnFrameOutcome::Surface(mm) => r matches Step::Message(msg) && message_is(
                            &msg,
                            mm,
                        ),
                        OnFrameOutcome::Reject(e) => r matches Step::Fail(err) && match e {
                            OnFrameError::Protocol(p) => err == Error::Read(ReadError::Protocol(p)),
                            OnFrameError::FragmentsBufferTooSmall => err == Error::Read(
                                ReadError::FragmentsBufferTooSmall,
                            ),
                        },
                    }
                },
            },
    {
        let (frame, consumed) = match self.codec.decode(&self.read_buffer) {
            Ok(None) => {
                return Step::Read;
            },
            Err(e) => {
                return Step::Fail(Error::Read(ReadError::ReadFrame(e)));
            },
            Ok(Some((frame, consumed))) => (frame, consumed),
        };
        let rest = copy_range(&self.read_buffer, consumed, self.read_buffer.len());
        self.read_buffer = rest;
        match on_frame(&mut self.fragments_state, &frame) {
            Ok(None) => Step::Again,
            Ok(Some(msg)) => Step::Message(msg),
            Err(e) => Step::Fail(e.into_error()),
        }
    }
}

impl WebSocketCore<rand::rngs::StdRng> {
    /// Draws a fresh Sec-WebSocket-Key and builds the upgrade request:
    /// the request bytes to transmit, and the key to check the response
    /// against.
    pub fn client_handshake_request(&mut self, options: &crate::options::ConnectOptions) -> (r:
        Result<(Vec<u8>, Vec<u8>), Error>)
        ensures
            final(self).codec.unmask == old(self).codec.unmask,
            final(self).codec.mask == old(self).codec.mask,
            final(self).fragments_state == old(self).fragments_state,
            final(self).read_buffer == old(self).read_buffer,
            final(self).read_capacity == old(self).read_capacity,
            final(self).write_capacity == old(self).write_capacity,
            final(self).state == old(self).state,
            r matches Ok(p) ==> {
                &&& p.1@.len() == 24
                &&& p.0@ == crate::handshake::client_request_bytes(
                    options.path@,
                    p.1@,
                    crate::http::headers_model(options.headers@),
                )
                &&& p.0@.len() <= old(self).write_capacity
            },
            r matches Err(e) ==> e == Error::Write(
                WriteError::WriteHttp(crate::error::HttpEncodeError::BufferTooSmall),
            ) && (forall|k: Seq<u8>|
                k.len() == 24 ==> crate::handshake::client_request_bytes(
                    options.path@,
                    k,
                    crate::http::headers_model(options.headers@),
                ).len() > old(self).write_capacity),
    {
        let sec_key = crate::handshake::generate_sec_key(&mut self.codec.rng);
        match crate::handshake::build_client_request(
            &options.path,
            &options.headers,
            &sec_key,
            self.write_capacity,
        ) {
            Ok(bytes) => Ok((bytes, sec_key)),
            Err(_) => {
                proof {
                    assert forall|k: Seq<u8>| k.len() == 24 implies crate::handshake::client_request_bytes(
                        options.path@,
                        k,
                        crate::http::headers_model(options.headers@),
                    ).len() > self.write_capacity by {
                        crate::handshake::lemma_request_len_depends_on_key_len(
                            options.path@,
                            crate::http::headers_model(options.headers@),
                            k,
                            sec_key@,
                        );
                    }
                }
                Err(Error::Write(
                    WriteError::WriteHttp(crate::error::HttpEncodeError::BufferTooSmall),
                ))
            },
        }
    }
}

impl<R> WebSocketCore<R> {
    /// Parses and validates the server's upgrade response from the read
    /// buffer, consuming it: `Ok(None)` asks for more bytes.
    pub fn client_handshake_response<const N: usize>(&mut self, sec_key: &Vec<u8>) -> (r: Result<
        Option<crate::http::Response>,
        Error,
    >)
        ensures
            final(self).codec == old(self).codec,
            final(self).fragments_state == old(self).fragments_state,
            final(self).read_capacity == old(self).read_capacity,
            final(self).write_capacity == old(self).write_capacity,
            final(self).state == old(self).state,
            match crate::http::parse_response_spec(old(self).read_buffer@, N as int) {
                crate::http::ResponseParse::Incomplete => (r matches Ok(o) && o is None) && final(self).read_buffer == old(self).read_buffer,
                crate::http::ResponseParse::Bad(e) => (r matches Err(e2) && e2 == Error::Read(
                    ReadError::ReadHttp(crate::error::HttpDecodeError::Parse(e)),
                )) && final(self).read_buffer == old(self).read_buffer,
                crate::http::ResponseParse::Done(f) => {
                    &&& final(self).read_buffer@ == old(self).read_buffer@.skip(f.consumed)
                    &&& match crate::handshake::server_response_check(f.code, f.headers, sec_key@) {
                        Some(e) => r matches Err(e2) && e2 == Error::Handshake(e),
                        None => r matches Ok(o) && o matches Some(resp) && {
                            &&& resp.version == f.version
                            &&& resp.code == f.code
                            &&& resp.reason@ == f.reason
                            &&& crate::http::headers_model(resp.headers@) == f.headers
                        },
                    }
                },
            },
    {
        let codec = crate::http::InResponseCodec::<N>::new();
        let (resp, consumed) = match codec.decode(&self.read_buffer) {
            Ok(None) => {
                return Ok(None);
            },
            Err(e) => {
                return Err(Error::Read(ReadError::ReadHttp(e)));
            },
            Ok(Some(p)) => p,
        };
        let len = self.read_buffer.len();
        let rest = copy_range(&self.read_buffer, consumed, len);
        self.read_buffer = rest;
        match crate::handshake::validate_server_response(&resp, sec_key) {
            Ok(()) => Ok(Some(resp)),
            Err(e) => Err(Error::Handshake(e)),
        }
    }

    /// Parses and validates the client's upgrade request from the read
    /// buffer, consuming it, and derives the accept value from its key:
    /// `Ok(None)` asks for more bytes.
    pub fn server_handshake_request<const N: usize>(&mut self) -> (r: Result<
        Option<(crate::http::Request, Vec<u8>)>,
        Error,
    >)
        ensures
            final(self).codec == old(self).codec,
            final(self).fragments_state == old(self).fragments_state,
            final(self).read_capacity == old(self).read_capacity,
            final(self).write_capacity == old(self).write_capacity,
            final(self).state == old(self).state,
            match crate::http::parse_request_spec(old(self).read_buffer@, N as int) {
                crate::http::RequestParse::Incomplete => (r matches Ok(o) && o is None) && final(self).read_buffer == old(self).read_buffer,
                crate::http::RequestParse::Bad(e) => (r matches Err(e2) && e2 == Error::Read(
                    ReadError::ReadHttp(crate::error::HttpDecodeError::Parse(e)),
                )) && final(self).read_buffer == old(self).read_buffer,
                crate::http::RequestParse::Done(f) => {
                    &&& final(self).read_buffer@ == old(self).read_buffer@.skip(f.consumed)
                    &&& match crate::handshake::client_request_check(
                        f.method,
                        f.version,
                        f.headers,
                    ) {
                        Some(e) => r matches Err(e2) && e2 == Error::Handshake(e),
                        None => r matches Ok(o) && o matches Some(p) && {
                            &&& p.0.method@ == f.method
                            &&& p.0.path@ == f.path
                            &&& p.0.version == f.version
                            &&& crate::http::headers_model(p.0.headers@) == f.headers
                            &&& p.1@ == crate::handshake::accept_of(
                                crate::http::lookup_model(
                                    f.headers,
                                    crate::handshake::sec_key_bytes(),
                                ).unwrap(),
                            )
                        },
                    }
                },
            },
    {
        let codec = crate::http::InRequestCodec::<N>::new();
        let (req, consumed) = match codec.decode(&self.read_buffer) {
            Ok(None) => {
                return Ok(None);
            },
            Err(e) => {
                return Err(Error::Read(ReadError::ReadHttp(e)));
            },
            Ok(Some(p)) => p,
        };
        let len = self.read_buffer.len();
        let rest = copy_range(&self.read_buffer, consumed, len);
        self.read_buffer = rest;
        let sec_key = match crate::handshake::validate_client_request(&req) {
            Ok(k) => k,
            Err(e) => {
                return Err(Error::Handshake(e));
            },
        };
        let accept = crate::handshake::generate_sec_accept(&sec_key);
        Ok(Some((req, accept)))
    }

    /// Builds the `101 Switching Protocols` response for an accept
    /// value: the response bytes to transmit.
    pub fn server_handshake_response(
        &mut self,
        accept_key: &Vec<u8>,
        options: &crate::options::AcceptOptions,
    ) -> (r: Result<Vec<u8>, Error>)
        ensures
            *final(self) == *old(self),
            (r is Ok) <==> crate::handshake::server_response_bytes(
                accept_key@,
                crate::http::headers_model(options.headers@),
            ).len() <= old(self).write_capacity,
            r matches Ok(v) ==> v@ == crate::handshake::server_response_bytes(
                accept_key@,
                crate::http::headers_model(options.headers@),
            ),
            r matches Err(e) ==> e == Error::Write(
                WriteError::WriteHttp(crate::error::HttpEncodeError::BufferTooSmall),
            ),
    {
        match crate::handshake::build_server_response(
            accept_key,
            &options.headers,
            self.write_capacity,
        ) {
            Ok(v) => Ok(v),
            Err(_) => Err(Error::Write(
                WriteError::WriteHttp(crate::error::HttpEncodeError::BufferTooSmall),
            )),
        }
    }
}

} // verus!
