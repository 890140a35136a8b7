//! Frames and their reassembly. A frame on the wire is a variable-length
//! count followed by that many bytes. The buffer takes what the transport
//! delivers, in pieces of any size, and hands out whole frames in order.

use crate::varint::{
    decode_varint, lemma_scan_width, lemma_varint_parse_prefix, lemma_varint_round_trip,
    varint_of, varint_parse, VarintError,
};
use vstd::prelude::*;
use vstd::slice::{slice_subrange, slice_to_vec};

verus! {

/// The most bytes a frame's count can announce.
pub const MAX_FRAME_BYTES: usize = 0x7fff_ffff;

/// What the front of a byte sequence holds.
pub enum FrameScan {
    /// The count is not complete, or fewer bytes follow it than it says.
    Waiting,
    /// A whole frame: the bytes after the count, and how many bytes count and
    /// frame take together.
    Ready { body: Seq<u8>, used: nat },
    /// The count runs over five bytes or is negative.
    Error,
}

/// Looks for one frame at the front of `b`.
pub open spec fn frame_parse(b: Seq<u8>) -> FrameScan {
    match varint_parse(b) {
        Err(VarintError::Incomplete) => FrameScan::Waiting,
        Err(VarintError::Overlong) => FrameScan::Error,
        Ok((count, width)) => {
            if count < 0 {
                FrameScan::Error
            } else if b.len() < width + count {
                FrameScan::Waiting
            } else {
                FrameScan::Ready {
                    body: b.subrange(width as int, width + count),
                    used: (width + count) as nat,
                }
            }
        },
    }
}

/// The wire bytes of a frame: the count of `body`, then `body`. A count is a
/// 32-bit value, so this is a frame for a body of `MAX_FRAME_BYTES` at most.
pub open spec fn frame_wire(body: Seq<u8>) -> Seq<u8> {
    varint_of(body.len() as i32) + body
}

/// The whole frames at the front of `b`, in order.
pub open spec fn frames_in(b: Seq<u8>) -> Seq<Seq<u8>>
    decreases b.len(),
{
    match frame_parse(b) {
        FrameScan::Ready { body, used } => {
            proof {
                lemma_scan_width(b, 5);
            }
            seq![body] + frames_in(b.subrange(used as int, b.len() as int))
        },
        _ => Seq::empty(),
    }
}

/// What is left of `b` once its whole frames are taken from the front: the
/// beginning of a frame still to come, or bytes that no frame begins with.
pub open spec fn residue(b: Seq<u8>) -> Seq<u8>
    decreases b.len(),
{
    match frame_parse(b) {
        FrameScan::Ready { body, used } => {
            proof {
                lemma_scan_width(b, 5);
            }
            residue(b.subrange(used as int, b.len() as int))
        },
        _ => b,
    }
}

/// The chunks of a delivery, put end to end.
pub open spec fn joined(chunks: Seq<Seq<u8>>) -> Seq<u8>
    decreases chunks.len(),
{
    if chunks.len() == 0 {
        Seq::empty()
    } else {
        joined(chunks.drop_last()) + chunks.last()
    }
}

/// The frames that come out, and the bytes that stay behind, when the chunks
/// are put into an empty buffer one by one and the buffer is emptied of whole
/// frames after each.
pub open spec fn delivered(chunks: Seq<Seq<u8>>) -> (Seq<Seq<u8>>, Seq<u8>)
    decreases chunks.len(),
{
    if chunks.len() == 0 {
        (Seq::empty(), Seq::empty())
    } else {
        let before = delivered(chunks.drop_last());
        let now = before.1 + chunks.last();
        (before.0 + frames_in(now), residue(now))
    }
}

/// The bytes of each frame of a list.
pub open spec fn frames_model(frames: Seq<Vec<u8>>) -> Seq<Seq<u8>> {
    Seq::new(frames.len(), |i: int| frames[i]@)
}

/// What a pull on the buffer gives.
#[derive(Debug, Clone, PartialEq, Eq)]
pub enum BufferState {
    /// More bytes are needed before a frame is whole.
    Waiting,
    /// One whole frame, without its count. The buffer has moved past it.
    Ready(Vec<u8>),
    /// The bytes at the front are no frame. The connection is to be given up.
    Error,
}

/// A reassembler of frames from a stream of bytes.
#[derive(Debug, Clone)]
pub struct PacketBuffer {
    pending: Vec<u8>,
}

impl View for PacketBuffer {
    type V = Seq<u8>;

    /// The bytes taken in and not yet handed out.
    closed spec fn view(&self) -> Seq<u8> {
        self.pending@
    }
}

impl PacketBuffer {
    /// An empty buffer.
    pub fn new() -> (buffer: Self)
        ensures
            buffer@ == Seq::<u8>::empty(),
    {
        PacketBuffer { pending: Vec::new() }
    }

    /// The number of bytes taken in and not yet handed out.
    pub fn len(&self) -> (n: usize)
        ensures
            n == self@.len(),
    {
        self.pending.len()
    }

    /// Takes in what the transport delivered.
    pub fn extend(&mut self, chunk: &[u8])
        ensures
            final(self)@ == old(self)@ + chunk@,
    {
        let mut i: usize = 0;
        while i < chunk.len()
            invariant
                i <= chunk@.len(),
                self.pending@ == old(self).pending@ + chunk@.subrange(0, i as int),
            decreases chunk@.len() - i,
        {
            self.pending.push(chunk[i]);
            i += 1;
            proof {
                assert(chunk@.subrange(0, i as int) =~= chunk@.subrange(0, i - 1).push(
                    chunk@[i - 1],
                ));
            }
        }
        proof {
            assert(chunk@.subrange(0, i as int) =~= chunk@);
        }
    }

    /// Pulls one frame. Where none is whole yet, or the front is no frame, the
    /// buffer stays as it is; where one is, the buffer moves past it and what
    /// follows stays for the next pull.
    pub fn poll(&mut self) -> (r: BufferState)
        ensures
            frame_parse(old(self)@) is Waiting ==> r is Waiting && final(self)@ == old(self)@,
            frame_parse(old(self)@) is Error ==> r is Error && final(self)@ == old(self)@,
            frame_parse(old(self)@) matches FrameScan::Ready { body, used } ==> r is Ready
                && r->Ready_0@ == body && 0 < used <= old(self)@.len() && final(self)@ == old(
                self,
            )@.subrange(used as int, old(self)@.len() as int),
    {
        let read = decode_varint(self.pending.as_slice());
        match read {
            Err(VarintError::Incomplete) => BufferState::Waiting,
            Err(VarintError::Overlong) => BufferState::Error,
            Ok((count, width)) => {
                if count < 0 {
                    return BufferState::Error;
                }
                let count: usize = count as usize;
                if self.pending.len() - width < count {
                    return BufferState::Waiting;
                }
                let end: usize = width + count;
                let body = slice_to_vec(slice_subrange(self.pending.as_slice(), width, end));
                let rest = slice_to_vec(
                    slice_subrange(self.pending.as_slice(), end, self.pending.len()),
                );
                self.pending = rest;
                BufferState::Ready(body)
            },
        }
    }

    /// Pulls every whole frame there is, in order. The flag says whether the
    /// bytes now at the front can still become a frame.
    pub fn take_frames(&mut self) -> (r: (Vec<Vec<u8>>, bool))
        ensures
            frames_model(r.0@) == frames_in(old(self)@),
            final(self)@ == residue(old(self)@),
            r.1 == !(frame_parse(final(self)@) is Error),
    {
        let mut frames: Vec<Vec<u8>> = Vec::new();
        loop
            invariant
                frames_model(frames@) + frames_in(self@) == frames_in(old(self)@),
                residue(self@) == residue(old(self)@),
            decreases self@.len(),
        {
            match self.poll() {
                BufferState::Ready(frame) => {
                    let ghost before = frames@;
                    frames.push(frame);
                    proof {
                        assert(frames_model(frames@) =~= frames_model(before) + seq![frame@]);
                    }
                },
                BufferState::Waiting => {
                    return (frames, true);
                },
                BufferState::Error => {
                    return (frames, false);
                },
            }
        }
    }
}

/// Reading the wire bytes of a frame, whatever follows them, gives the frame
/// and the number of those bytes.
pub proof fn lemma_frame_round_trip(body: Seq<u8>, more: Seq<u8>)
    requires
        body.len() <= MAX_FRAME_BYTES,
    ensures
        frame_parse(frame_wire(body) + more) == (FrameScan::Ready {
            body,
            used: frame_wire(body).len(),
        }),
        body.len() < frame_wire(body).len() <= body.len() + 5,
{
    let count = body.len() as i32;
    let all = frame_wire(body) + more;
    assert(all =~= varint_of(count) + (body + more));
    lemma_varint_round_trip(count, body + more);
    let width = varint_of(count).len();
    assert(all.subrange(width as int, width + count) =~= body);
}

/// A whole frame stays what it is when more bytes arrive behind it, and so
/// does a front that is no frame.
pub proof fn lemma_frame_prefix(b: Seq<u8>, more: Seq<u8>)
    requires
        !(frame_parse(b) is Waiting),
    ensures
        frame_parse(b + more) == frame_parse(b),
{
    lemma_varint_parse_prefix(b, more);
    lemma_scan_width(b, 5);
    if let Ok((count, width)) = varint_parse(b) {
        if count >= 0 {
            assert((b + more).subrange(width as int, width + count) =~= b.subrange(
                width as int,
                width + count,
            ));
        }
    }
}

/// What comes out of a buffer that got `first` and then `more` is what comes
/// out of one that got both at once: the frames of `first`, then the frames
/// of what `first` left behind with `more` after it.
pub proof fn lemma_split_delivery(first: Seq<u8>, more: Seq<u8>)
    ensures
        frames_in(first + more) == frames_in(first) + frames_in(residue(first) + more),
        residue(first + more) == residue(residue(first) + more),
    decreases first.len(),
{
    match frame_parse(first) {
        FrameScan::Ready { body, used } => {
            lemma_scan_width(first, 5);
            lemma_frame_prefix(first, more);
            let tail = first.subrange(used as int, first.len() as int);
            let all = first + more;
            assert(all.subrange(used as int, all.len() as int) =~= tail + more);
            lemma_split_delivery(tail, more);
            assert(frames_in(first) == seq![body] + frames_in(tail));
            assert(frames_in(all) == seq![body] + frames_in(tail + more));
            assert(seq![body] + (frames_in(tail) + frames_in(residue(tail) + more)) =~= (seq![body]
                + frames_in(tail)) + frames_in(residue(tail) + more));
        },
        _ => {
            assert(frames_in(first) + frames_in(first + more) =~= frames_in(first + more));
        },
    }
}

/// However a stream is cut into chunks, the buffer hands out the frames that
/// it hands out when the stream comes in one piece, in the same order, and
/// the same bytes stay behind.
pub proof fn lemma_chunking(chunks: Seq<Seq<u8>>)
    ensures
        delivered(chunks).0 == frames_in(joined(chunks)),
        delivered(chunks).1 == residue(joined(chunks)),
    decreases chunks.len(),
{
    if chunks.len() == 0 {
        assert(frame_parse(Seq::<u8>::empty()) is Waiting);
    } else {
        let head = chunks.drop_last();
        lemma_chunking(head);
        lemma_split_delivery(joined(head), chunks.last());
    }
}

} // verus!
