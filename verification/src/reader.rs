//! Collecting a frame from a byte stream.
//!
//! A stream hands over bytes in pieces of any size, so a frame may arrive in
//! several reads. [`MessageReader`] decides what to do after each read: ask for
//! the bytes still missing, give up because the stream ended or failed, or
//! decode the frame once its 27 bytes are there. The reading itself is left to
//! the caller. [`read_message`] does both for a stream held in memory.

use crate::frame::{
    decode_frame, parse_frame, payload_message, well_formed, DecodeError, StreamError, FRAME_LEN,
};
use crate::message::DeviceMessage;
use vstd::prelude::*;
use vstd::slice::slice_subrange;

verus! {

/// How one read of the stream ended.
#[derive(Clone, Copy, Debug)]
pub enum ReadEvent<'a> {
    /// The read returned these bytes; none means that the stream has ended.
    Bytes(&'a [u8]),
    /// The read failed.
    Failed,
}

/// What a [`MessageReader`] wants done next.
#[derive(Clone, Copy, Debug, PartialEq, Eq)]
pub enum ReadAction {
    /// Read again, asking for at most this many bytes.
    Read(usize),
    /// Reading is over, with this outcome.
    Done(Result<DeviceMessage, DecodeError>),
}

/// The bytes of `chunk` that a reader with `room` bytes to go takes in.
pub open spec fn taken(chunk: Seq<u8>, room: int) -> Seq<u8> {
    if chunk.len() <= room {
        chunk
    } else {
        chunk.take(room)
    }
}

/// One step of a reader that has `collected` so far, after a read that
/// returned `chunk`: the bytes it holds afterwards, and what it wants done.
///
/// A read without bytes while bytes are missing ends the reading. Otherwise
/// the reader takes what it still needs from the front of `chunk`; with 27
/// bytes it delivers what the frame decodes to, with fewer it asks for the
/// rest.
pub open spec fn bytes_step(collected: Seq<u8>, chunk: Seq<u8>) -> (Seq<u8>, ReadAction)
    recommends
        collected.len() <= FRAME_LEN,
{
    let room = FRAME_LEN - collected.len();
    if room > 0 && chunk.len() == 0 {
        (collected, ReadAction::Done(Err(DecodeError::Io(StreamError::EndOfStream))))
    } else {
        let now = collected + taken(chunk, room);
        if now.len() == FRAME_LEN {
            (now, ReadAction::Done(parse_frame(now)))
        } else {
            (now, ReadAction::Read((FRAME_LEN - now.len()) as usize))
        }
    }
}

/// One step of a reader that has `collected` so far: the bytes it holds
/// afterwards, and what it wants done. A failed read ends the reading; a read
/// that returned goes by [`bytes_step`].
pub open spec fn read_step(collected: Seq<u8>, event: ReadEvent) -> (Seq<u8>, ReadAction)
    recommends
        collected.len() <= FRAME_LEN,
{
    match event {
        ReadEvent::Failed => (
            collected,
            ReadAction::Done(Err(DecodeError::Io(StreamError::ReadFailed))),
        ),
        ReadEvent::Bytes(chunk) => bytes_step(collected, chunk@),
    }
}

/// Collects the bytes of one frame, read by read.
pub struct MessageReader {
    buffer: [u8; FRAME_LEN],
    filled: usize,
}

impl MessageReader {
    #[verifier::type_invariant]
    spec fn within_frame(self) -> bool {
        self.filled <= FRAME_LEN
    }

    /// The bytes collected so far.
    pub closed spec fn collected(&self) -> Seq<u8> {
        self.buffer@.take(self.filled as int)
    }

    /// A reader that holds no bytes yet.
    pub fn new() -> (reader: MessageReader)
        ensures
            reader.collected() == Seq::<u8>::empty(),
    {
        MessageReader { buffer: [0u8; FRAME_LEN], filled: 0 }
    }

    /// The number of bytes still missing from the frame.
    pub fn wanted(&self) -> (count: usize)
        ensures
            count + self.collected().len() == FRAME_LEN,
    {
        proof {
            use_type_invariant(self);
        }
        FRAME_LEN - self.filled
    }

    /// Takes in how the last read ended and says what to do next.
    ///
    /// The reader keeps the bytes it has also where it reports that the stream
    /// ended or failed, and once it has its 27 bytes it takes no more: asked
    /// again, it delivers the same frame.
    pub fn on_event(&mut self, event: ReadEvent) -> (action: ReadAction)
        ensures
            final(self).collected() == read_step(old(self).collected(), event).0,
            action == read_step(old(self).collected(), event).1,
    {
        proof {
            use_type_invariant(&*self);
        }
        match event {
            ReadEvent::Failed => ReadAction::Done(Err(DecodeError::Io(StreamError::ReadFailed))),
            ReadEvent::Bytes(chunk) => {
                let room = FRAME_LEN - self.filled;
                if room > 0 && chunk.len() == 0 {
                    return ReadAction::Done(Err(DecodeError::Io(StreamError::EndOfStream)));
                }
                let count = if chunk.len() <= room {
                    chunk.len()
                } else {
                    room
                };
                let ghost before = self.collected();
                let mut i: usize = 0;
                while i < count
                    invariant
                        i <= count,
                        count <= chunk@.len(),
                        before.len() + count <= FRAME_LEN,
                        self.filled == before.len() + i,
                        self.collected() == before + chunk@.take(i as int),
                    decreases count - i,
                {
                    let ghost held = self.collected();
                    self.buffer[self.filled] = chunk[i];
                    self.filled += 1;
                    i += 1;
                    assert(self.collected() =~= held.push(chunk@[i - 1]));
                    assert(chunk@.take(i as int) =~= chunk@.take(i - 1).push(chunk@[i - 1]));
                }
                assert(chunk@.take(count as int) =~= taken(chunk@, room as int));
                if self.filled == FRAME_LEN {
                    assert(self.collected() =~= self.buffer@);
                    ReadAction::Done(decode_frame(&self.buffer))
                } else {
                    ReadAction::Read(FRAME_LEN - self.filled)
                }
            },
        }
    }
}

/// A byte stream held in memory: the bytes, and how far they have been read.
pub struct ByteCursor<'a> {
    data: &'a [u8],
    position: usize,
}

impl<'a> ByteCursor<'a> {
    #[verifier::type_invariant]
    spec fn within_data(self) -> bool {
        self.position <= self.data@.len()
    }

    /// The bytes not read yet.
    pub closed spec fn remaining(&self) -> Seq<u8> {
        self.data@.skip(self.position as int)
    }

    /// A stream over `data`, with nothing read yet.
    pub fn new(data: &'a [u8]) -> (stream: ByteCursor<'a>)
        ensures
            stream.remaining() == data@,
    {
        ByteCursor { data, position: 0 }
    }

    /// The number of bytes not read yet.
    pub fn available(&self) -> (count: usize)
        ensures
            count == self.remaining().len(),
    {
        proof {
            use_type_invariant(self);
        }
        self.data.len() - self.position
    }

    /// Reads the next bytes, `at_most` of them or as many as are left.
    pub fn read(&mut self, at_most: usize) -> (chunk: &'a [u8])
        ensures
            chunk@ == taken(old(self).remaining(), at_most as int),
            final(self).remaining() == old(self).remaining().skip(chunk@.len() as int),
    {
        proof {
            use_type_invariant(&*self);
        }
        let left = self.data.len() - self.position;
        let count = if left <= at_most {
            left
        } else {
            at_most
        };
        let start = self.position;
        let chunk = slice_subrange(self.data, start, start + count);
        self.position = start + count;
        assert(chunk@ =~= taken(old(self).remaining(), at_most as int));
        assert(self.remaining() =~= old(self).remaining().skip(chunk@.len() as int));
        chunk
    }
}

/// What reading one message makes of a stream that still holds `stream`: the
/// outcome, and the bytes left afterwards.
///
/// With 27 bytes or more the next 27 are consumed and decoded, whether or not
/// they pass the header checks. With fewer the stream is read to its end and
/// the outcome is [`StreamError::EndOfStream`].
pub open spec fn read_one(stream: Seq<u8>) -> (Result<DeviceMessage, DecodeError>, Seq<u8>) {
    if stream.len() >= FRAME_LEN {
        (parse_frame(stream.take(FRAME_LEN as int)), stream.skip(FRAME_LEN as int))
    } else {
        (Err(DecodeError::Io(StreamError::EndOfStream)), Seq::empty())
    }
}

/// Reads the next message from `stream`.
///
/// Reads until 27 bytes are collected, then checks and decodes them. The bytes
/// are consumed also where the frame is refused: after a refusal the stream is
/// out of step and should be given up.
pub fn read_message(stream: &mut ByteCursor) -> (r: Result<DeviceMessage, DecodeError>)
    ensures
        r == read_one(old(stream).remaining()).0,
        final(stream).remaining() == read_one(old(stream).remaining()).1,
{
    let ghost start = stream.remaining();
    let mut reader = MessageReader::new();
    let mut want = reader.wanted();
    loop
        invariant
            0 < want <= FRAME_LEN,
            want == FRAME_LEN - reader.collected().len(),
            start == old(stream).remaining(),
            reader.collected() + stream.remaining() == start,
        decreases want,
    {
        let chunk = stream.read(want);
        match reader.on_event(ReadEvent::Bytes(chunk)) {
            ReadAction::Read(more) => {
                assert(reader.collected() + stream.remaining() =~= start);
                want = more;
            },
            ReadAction::Done(outcome) => {
                proof {
                    if chunk@.len() == 0 {
                        assert(stream.remaining() =~= Seq::<u8>::empty());
                        assert(start =~= reader.collected());
                    } else {
                        assert(reader.collected() + stream.remaining() =~= start);
                        assert(reader.collected() =~= start.take(FRAME_LEN as int));
                        assert(stream.remaining() =~= start.skip(FRAME_LEN as int));
                    }
                }
                return outcome;
            },
        }
    }
}

/// The byte stream in which `parts` follow one another.
pub open spec fn stream_of(parts: Seq<Seq<u8>>) -> Seq<u8>
    decreases parts.len(),
{
    if parts.len() == 0 {
        Seq::empty()
    } else {
        parts.first() + stream_of(parts.drop_first())
    }
}

/// A fresh reader after reads that returned `pieces`, one after another: the
/// bytes it holds, and what it wants done.
pub open spec fn read_run(pieces: Seq<Seq<u8>>) -> (Seq<u8>, ReadAction)
    decreases pieces.len(),
{
    if pieces.len() == 0 {
        (Seq::empty(), ReadAction::Read(FRAME_LEN))
    } else {
        bytes_step(read_run(pieces.drop_last()).0, pieces.last())
    }
}

/// The outcomes of reading message after message from `stream`, for as long
/// as it holds a whole frame.
pub open spec fn read_all(stream: Seq<u8>) -> Seq<Result<DeviceMessage, DecodeError>>
    decreases stream.len(),
{
    if stream.len() < FRAME_LEN {
        Seq::empty()
    } else {
        seq![read_one(stream).0] + read_all(read_one(stream).1)
    }
}

/// A stream of parts is the stream of all but the last part, then the last.
proof fn lemma_stream_ends_with_last(parts: Seq<Seq<u8>>)
    requires
        parts.len() > 0,
    ensures
        stream_of(parts) == stream_of(parts.drop_last()) + parts.last(),
    decreases parts.len(),
{
    if parts.len() == 1 {
        assert(parts.drop_last() =~= parts.drop_first());
        assert(stream_of(parts.drop_first()) =~= Seq::<u8>::empty());
        assert(stream_of(parts) =~= parts.first());
        assert(stream_of(parts.drop_last()) + parts.last() =~= parts.last());
    } else {
        let inner = parts.drop_first();
        lemma_stream_ends_with_last(inner);
        assert(inner.drop_last() =~= parts.drop_last().drop_first());
        assert(inner.last() == parts.last());
        assert(parts.drop_last().first() == parts.first());
        assert(stream_of(parts) =~= parts.first() + (stream_of(inner.drop_last()) + inner.last()));
        assert(stream_of(parts.drop_last()) =~= parts.first() + stream_of(inner.drop_last()));
        assert(stream_of(parts) =~= stream_of(parts.drop_last()) + parts.last());
    }
}

/// However a stream cuts its bytes into reads, the reader collects them
/// unchanged: after reads that each returned some bytes, no more than a frame
/// in all, it holds those bytes in their order. Short of 27 it asks for
/// exactly the rest; with 27 it delivers what they decode to.
pub proof fn lemma_reads_in_pieces(pieces: Seq<Seq<u8>>)
    requires
        forall|i: int| 0 <= i < pieces.len() ==> (#[trigger] pieces[i]).len() > 0,
        stream_of(pieces).len() <= FRAME_LEN,
    ensures
        read_run(pieces).0 == stream_of(pieces),
        stream_of(pieces).len() < FRAME_LEN ==> read_run(pieces).1 == ReadAction::Read(
            (FRAME_LEN - stream_of(pieces).len()) as usize,
        ),
        stream_of(pieces).len() == FRAME_LEN ==> read_run(pieces).1 == ReadAction::Done(
            parse_frame(stream_of(pieces)),
        ),
    decreases pieces.len(),
{
    if pieces.len() > 0 {
        let earlier = pieces.drop_last();
        lemma_stream_ends_with_last(pieces);
        assert forall|i: int| 0 <= i < earlier.len() implies (#[trigger] earlier[i]).len() > 0 by {
            assert(earlier[i] == pieces[i]);
        }
        assert(pieces.last() == pieces[pieces.len() - 1]);
        lemma_reads_in_pieces(earlier);
    }
}

/// Reading from a stream that begins with a frame of 27 bytes gives what that
/// frame decodes to and leaves exactly what follows the frame: its 27 bytes
/// are consumed, none lost and none read twice.
pub proof fn lemma_read_first_frame(frames: Seq<Seq<u8>>)
    requires
        frames.len() > 0,
        frames.first().len() == FRAME_LEN,
    ensures
        read_one(stream_of(frames)).0 == parse_frame(frames.first()),
        read_one(stream_of(frames)).1 == stream_of(frames.drop_first()),
        stream_of(frames).len() == FRAME_LEN + stream_of(frames.drop_first()).len(),
{
    let head = frames.first();
    let tail = stream_of(frames.drop_first());
    assert((head + tail).take(FRAME_LEN as int) =~= head);
    assert((head + tail).skip(FRAME_LEN as int) =~= tail);
}

/// A stream of `n` well-formed frames is `27 * n` bytes long, and reading it
/// message after message gives `n` outcomes, each the message of the frame in
/// that place.
pub proof fn lemma_reads_every_frame(frames: Seq<Seq<u8>>)
    requires
        forall|k: int| 0 <= k < frames.len() ==> well_formed(#[trigger] frames[k]),
    ensures
        stream_of(frames).len() == FRAME_LEN * frames.len(),
        read_all(stream_of(frames)).len() == frames.len(),
        forall|k: int|
            0 <= k < frames.len() ==> (#[trigger] read_all(stream_of(frames))[k] matches Ok(
                message,
            ) && message == payload_message(frames[k])),
    decreases frames.len(),
{
    if frames.len() > 0 {
        let others = frames.drop_first();
        assert(well_formed(frames[0]));
        assert forall|k: int| 0 <= k < others.len() implies well_formed(#[trigger] others[k]) by {
            assert(others[k] == frames[k + 1]);
        }
        lemma_read_first_frame(frames);
        lemma_reads_every_frame(others);
        let rest = read_all(stream_of(others));
        assert(read_all(stream_of(frames)) =~= seq![read_one(stream_of(frames)).0] + rest);
        assert forall|k: int| 0 <= k < frames.len() implies (#[trigger] read_all(
            stream_of(frames),
        )[k] matches Ok(message) && message == payload_message(frames[k])) by {
            if k > 0 {
                assert(read_all(stream_of(frames))[k] == rest[k - 1]);
                assert(others[k - 1] == frames[k]);
            }
        }
    }
}

} // verus!
