//! Cutting a data message into a sequence of frames.

use vstd::prelude::*;

use crate::frame::Frame;
use crate::mask::copy_range;
use crate::opcode::OpCode;

verus! {

/// The frames of a data message cut at `size` bytes, as (fin, opcode,
/// payload) triples: every frame but the last carries `size` bytes and is
/// not final, the first carries the message's opcode, the others are
/// continuations, and exactly the last is final. A payload of at most
/// `size` bytes (the empty payload included) yields a single final frame.
pub open spec fn fragment_frames(opcode: OpCode, data: Seq<u8>, size: nat) -> Seq<
    (bool, OpCode, Seq<u8>),
>
    decreases data.len(),
    when size >= 1
{
    if data.len() <= size {
        seq![(true, opcode, data)]
    } else {
        seq![(false, opcode, data.take(size as int))] + fragment_frames(
            OpCode::Continuation,
            data.skip(size as int),
            size,
        )
    }
}

/// The concatenation of the payloads of a sequence of frames.
pub open spec fn concat_payloads(frames: Seq<(bool, OpCode, Seq<u8>)>) -> Seq<u8>
    decreases frames.len(),
{
    if frames.len() == 0 {
        Seq::<u8>::empty()
    } else {
        frames[0].2 + concat_payloads(frames.drop_first())
    }
}

/// Cutting a message into fragments loses nothing and marks the frames
/// as the protocol asks: the payloads concatenate back to the message,
/// the first frame carries the message's opcode, all later frames are
/// continuations, and exactly the last frame is final. A message no
/// longer than the fragment size (the empty message included) yields
/// exactly one final frame.
pub proof fn lemma_fragment_frames_reassemble(opcode: OpCode, data: Seq<u8>, size: nat)
    requires
        size >= 1,
    ensures
        fragment_frames(opcode, data, size).len() >= 1,
        concat_payloads(fragment_frames(opcode, data, size)) =~= data,
        fragment_frames(opcode, data, size)[0].1 == opcode,
        forall|i: int|
            1 <= i < fragment_frames(opcode, data, size).len() ==> fragment_frames(
                opcode,
                data,
                size,
            )[i].1 == OpCode::Continuation,
        forall|i: int|
            0 <= i < fragment_frames(opcode, data, size).len() ==> (fragment_frames(
                opcode,
                data,
                size,
            )[i].0 <==> i == fragment_frames(opcode, data, size).len() - 1),
        data.len() <= size ==> fragment_frames(opcode, data, size) =~~= seq![(true, opcode, data)],
    decreases data.len(),
{
    let frames = fragment_frames(opcode, data, size);
    if data.len() <= size {
        assert(frames =~~= seq![(true, opcode, data)]);
        assert(frames.drop_first().len() == 0);
        assert(concat_payloads(frames.drop_first()) =~= Seq::<u8>::empty());
        assert(concat_payloads(frames) =~= data);
    } else {
        let tail = fragment_frames(OpCode::Continuation, data.skip(size as int), size);
        lemma_fragment_frames_reassemble(OpCode::Continuation, data.skip(size as int), size);
        assert(frames == seq![(false, opcode, data.take(size as int))] + tail);
        assert(frames.drop_first() =~~= tail);
        assert(concat_payloads(frames) =~= data.take(size as int) + concat_payloads(tail));
        assert(data.take(size as int) + data.skip(size as int) =~= data);
        assert forall|i: int| 1 <= i < frames.len() implies frames[i].1
            == OpCode::Continuation by {
            assert(frames[i] == tail[i - 1]);
        }
        assert forall|i: int| 0 <= i < frames.len() implies (frames[i].0 <==> i == frames.len()
            - 1) by {
            if i >= 1 {
                assert(frames[i] == tail[i - 1]);
            }
        }
    }
}

/// True when a frame carries exactly the given (fin, opcode, payload) triple.
pub open spec fn frame_is(f: &Frame, t: (bool, OpCode, Seq<u8>)) -> bool {
    f.fin == t.0 && f.opcode == t.1 && f.payload@ == t.2
}

/// Iterator over the frames of a non-empty data message.
pub struct Iter {
    /// The message payload.
    pub data: Vec<u8>,
    /// The opcode of the first frame.
    pub opcode: OpCode,
    /// The fragment size; must be at least one.
    pub fragment_size: usize,
    /// How many payload bytes have been handed out.
    pub pos: usize,
}

impl Iter {
    /// A usable iterator has a positive fragment size and a position
    /// inside the payload.
    pub open spec fn wf(&self) -> bool {
        self.fragment_size >= 1 && self.pos <= self.data@.len()
    }

    /// The frames not yet handed out.
    pub open spec fn remaining(&self) -> Seq<(bool, OpCode, Seq<u8>)> {
        if self.pos >= self.data@.len() {
            Seq::empty()
        } else {
            fragment_frames(
                if self.pos == 0 {
                    self.opcode
                } else {
                    OpCode::Continuation
                },
                self.data@.skip(self.pos as int),
                self.fragment_size as nat,
            )
        }
    }

    /// Creates an iterator positioned at the start of the payload.
    pub fn new(data: Vec<u8>, opcode: OpCode, fragment_size: usize) -> (r: Self)
        ensures
            r.data@ == data@,
            r.opcode == opcode,
            r.fragment_size == fragment_size,
            r.pos == 0,
            fragment_size >= 1 && data@.len() > 0 ==> r.wf() && r.remaining() == fragment_frames(
                opcode,
                data@,
                fragment_size as nat,
            ),
    {
        let r = Iter { data, opcode, fragment_size, pos: 0 };
        proof {
            if fragment_size >= 1 && r.data@.len() > 0 {
                assert(r.data@.skip(0) =~= r.data@);
            }
        }
        r
    }

    /// Hands out the next frame: `size` payload bytes (fewer at the
    /// end), final exactly on the last, a continuation after the first.
    pub fn next(&mut self) -> (r: Option<Frame>)
        requires
            old(self).wf(),
        ensures
            final(self).wf(),
            old(self).remaining().len() == 0 ==> r is None && *final(self) == *old(self),
            old(self).remaining().len() > 0 ==> {
                &&& r matches Some(f) && frame_is(&f, old(self).remaining()[0])
                &&& final(self).remaining() == old(self).remaining().drop_first()
            },
    {
        if self.pos >= self.data.len() {
            return None;
        }
        let ghost rem = self.remaining();
        let start = self.pos;
        let left = self.data.len() - start;
        let end = if self.fragment_size < left {
            start + self.fragment_size
        } else {
            self.data.len()
        };
        self.pos = end;
        let fin = end == self.data.len();
        let opcode = if start == 0 {
            self.opcode
        } else {
            OpCode::Continuation
        };
        let payload = copy_range(&self.data, start, end);
        proof {
            let tailseq = self.data@.skip(start as int);
            assert(tailseq.len() == left);
            if self.fragment_size < left {
                assert(payload@ =~= tailseq.take(self.fragment_size as int));
                assert(self.data@.skip(end as int) =~= tailseq.skip(self.fragment_size as int));
                assert(self.remaining() =~~= rem.drop_first());
            } else {
                assert(payload@ =~= tailseq);
                assert(self.remaining() =~~= rem.drop_first());
            }
        }
        Some(Frame::new(fin, opcode, payload))
    }
}

/// Iterator over the frames of a data message, the empty message included.
pub enum FragmentsIterator {
    /// A single final frame, for the empty message.
    Once(Option<Frame>),
    /// The frames of a non-empty message.
    Iter(Iter),
}

impl FragmentsIterator {
    /// A usable iterator has a positive fragment size.
    pub open spec fn wf(&self) -> bool {
        match self {
            FragmentsIterator::Once(_) => true,
            FragmentsIterator::Iter(it) => it.wf(),
        }
    }

    /// The frames not yet handed out.
    pub open spec fn remaining(&self) -> Seq<(bool, OpCode, Seq<u8>)> {
        match self {
            FragmentsIterator::Once(Some(f)) => seq![(f.fin, f.opcode, f.payload@)],
            FragmentsIterator::Once(None) => Seq::empty(),
            FragmentsIterator::Iter(it) => it.remaining(),
        }
    }

    /// Creates the iterator. The fragment size must be at least one and
    /// the opcode Text or Binary for the frames to be well-formed.
    pub fn new(opcode: OpCode, data: Vec<u8>, fragment_size: usize) -> (r: Self)
        ensures
            fragment_size >= 1 ==> r.wf() && r.remaining() == fragment_frames(
                opcode,
                data@,
                fragment_size as nat,
            ),
    {
        if data.len() == 0 {
            let r = FragmentsIterator::Once(Some(Frame::new(true, opcode, Vec::new())));
            proof {
                if fragment_size >= 1 {
                    assert(r.remaining() =~~= fragment_frames(opcode, data@, fragment_size as nat));
                }
            }
            r
        } else {
            FragmentsIterator::Iter(Iter::new(data, opcode, fragment_size))
        }
    }

    /// Hands out the next frame.
    pub fn next(&mut self) -> (r: Option<Frame>)
        requires
            old(self).wf(),
        ensures
            final(self).wf(),
            old(self).remaining().len() == 0 ==> r is None && *final(self) == *old(self),
            old(self).remaining().len() > 0 ==> {
                &&& r matches Some(f) && frame_is(&f, old(self).remaining()[0])
                &&& final(self).remaining() == old(self).remaining().drop_first()
            },
    {
        match self {
            FragmentsIterator::Once(slot) => {
                let taken = slot.take();
                proof {
                    if old(self).remaining().len() > 0 {
                        assert(self.remaining() =~~= old(self).remaining().drop_first());
                    }
                }
                taken
            },
            FragmentsIterator::Iter(it) => it.next(),
        }
    }
}

} // verus!
