//! The incremental frame decoder: bytes that a source delivers piece by
//! piece go in, whole frames come out, one for each step.

use vstd::prelude::*;
use bytes::BytesMut;
use crate::buffer::contents;
use crate::proto::frame::{FrameView, HttpFrame};

verus! {

/// `std::io::Error`, the failure of a byte source. The library hands it on
/// and looks at nothing in it.
#[verifier::external_type_specification]
#[verifier::external_body]
pub struct ExIoError(std::io::Error);

/// Why the decoder gave up.
#[derive(Debug)]
pub enum Error {
    /// One read increment of bytes did not hold a whole frame.
    Overflow,
    /// The bytes are no frame.
    Proto(crate::proto::frame::Error),
    /// The source failed.
    Io(std::io::Error),
}

impl From<crate::proto::frame::Error> for Error {
    fn from(err: crate::proto::frame::Error) -> (ret: Error) {
        Error::Proto(err)
    }
}

impl vstd::std_specs::convert::FromSpecImpl<crate::proto::frame::Error> for Error {
    open spec fn obeys_from_spec() -> bool {
        true
    }

    open spec fn from_spec(err: crate::proto::frame::Error) -> Error {
        Error::Proto(err)
    }
}

impl From<std::io::Error> for Error {
    fn from(err: std::io::Error) -> (ret: Error) {
        Error::Io(err)
    }
}

impl vstd::std_specs::convert::FromSpecImpl<std::io::Error> for Error {
    open spec fn obeys_from_spec() -> bool {
        true
    }

    open spec fn from_spec(err: std::io::Error) -> Error {
        Error::Io(err)
    }
}

/// What a step has to offer: a value, or nothing yet.
#[derive(Debug, PartialEq, Eq)]
pub enum Async<T> {
    Ready(T),
    NotReady,
}

/// What one attempt to read from the source without blocking came to.
#[derive(Debug)]
pub enum ReadOutcome<'a> {
    /// The source has nothing at the moment.
    NotReady,
    /// The source delivered these bytes; none at all means that it has ended.
    Ready(&'a [u8]),
    /// The source failed.
    Failed(std::io::Error),
}

/// The state that a step leaves and what it hands over, frames as
/// mathematical values.
pub ghost struct Step {
    pub buffered: Seq<u8>,
    pub needs_read: bool,
    pub result: Result<Async<Option<FrameView>>, Error>,
}

/// What a step hands over, the frame in it as a mathematical value.
pub open spec fn result_view(res: Result<Async<Option<HttpFrame>>, Error>) -> Result<
    Async<Option<FrameView>>,
    Error,
> {
    match res {
        Ok(Async::Ready(Some(frame))) => Ok(Async::Ready(Some(frame@))),
        Ok(Async::Ready(None)) => Ok(Async::Ready(None)),
        Ok(Async::NotReady) => Ok(Async::NotReady),
        Err(e) => Err(e),
    }
}

/// The step that decodes one frame from the start of `input`. `needs_read` is
/// what the state held before.
pub open spec fn decode_step(input: Seq<u8>, needs_read: bool) -> Step {
    match crate::proto::frame::spec_decode(input) {
        Ok((frame, n)) => Step {
            buffered: input.skip(n as int),
            needs_read: false,
            result: Ok(Async::Ready(Some(frame))),
        },
        Err(crate::proto::frame::Error::UnexpectedEnd) => if input.len()
            == FrameStream::READ_SIZE {
            Step { buffered: input, needs_read, result: Err(Error::Overflow) }
        } else {
            Step { buffered: input, needs_read: true, result: Ok(Async::NotReady) }
        },
        Err(e) => Step { buffered: input, needs_read, result: Err(Error::Proto(e)) },
    }
}

/// One production step on the bytes `buffered`, in the state `needs_read`,
/// given what the read came to.
pub open spec fn step(buffered: Seq<u8>, needs_read: bool, read: ReadOutcome) -> Step {
    if needs_read {
        match read {
            ReadOutcome::Failed(e) => Step { buffered, needs_read, result: Err(Error::Io(e)) },
            ReadOutcome::NotReady => Step { buffered, needs_read, result: Ok(Async::NotReady) },
            ReadOutcome::Ready(data) => if data@.len() == 0 {
                Step { buffered, needs_read, result: Ok(Async::Ready(None)) }
            } else {
                decode_step(buffered + data@, needs_read)
            },
        }
    } else {
        decode_step(buffered, needs_read)
    }
}

/// Whether a decoder in this state reads only for want of a frame: where it
/// asks for a read, no whole frame stands at the start of its buffer.
pub open spec fn reads_for_want(buffered: Seq<u8>, needs_read: bool) -> bool {
    needs_read ==> crate::proto::frame::spec_decode(buffered) is Err
}

/// A decoder reads only for want of a frame: a new one does, and every step
/// keeps it so. No frame that is already buffered waits for a read.
pub proof fn lemma_reads_for_want(buffered: Seq<u8>, needs_read: bool, read: ReadOutcome)
    ensures
        reads_for_want(Seq::empty(), true),
        reads_for_want(buffered, needs_read) ==> reads_for_want(
            step(buffered, needs_read, read).buffered,
            step(buffered, needs_read, read).needs_read,
        ),
{
}

/// A step that finds a whole frame at the start of the bytes hands over that
/// frame, keeps what follows it, and asks for no read.
pub proof fn lemma_whole_frame_is_yielded(frame: FrameView, rest: Seq<u8>, needs_read: bool)
    requires
        frame.is_encodable(),
    ensures
        decode_step(frame.encoding() + rest, needs_read) == (Step {
            buffered: rest,
            needs_read: false,
            result: Ok(Async::Ready(Some(frame))),
        }),
{
    crate::proto::frame::lemma_decode_encoding(frame, rest);
    assert((frame.encoding() + rest).skip(frame.encoding().len() as int) =~= rest);
}

/// The bytes of `frames` on the wire, one frame behind the other.
pub open spec fn encode_all(frames: Seq<FrameView>) -> Seq<u8>
    decreases frames.len(),
{
    if frames.len() == 0 {
        Seq::empty()
    } else {
        frames[0].encoding() + encode_all(frames.skip(1))
    }
}

/// Frames come out in the order of their bytes, one for each step: where the
/// buffer holds the frames from the `i`-th on, back to back, a step hands over
/// the `i`-th and leaves those after it.
pub proof fn lemma_frames_in_order(frames: Seq<FrameView>, rest: Seq<u8>, i: int, needs_read: bool)
    requires
        0 <= i < frames.len(),
        frames[i].is_encodable(),
    ensures
        decode_step(encode_all(frames.skip(i)) + rest, needs_read) == (Step {
            buffered: encode_all(frames.skip(i + 1)) + rest,
            needs_read: false,
            result: Ok(Async::Ready(Some(frames[i]))),
        }),
{
    let tail = frames.skip(i);
    assert(tail[0] == frames[i]);
    assert(tail.skip(1) =~= frames.skip(i + 1));
    assert(encode_all(tail) + rest =~= frames[i].encoding() + (encode_all(frames.skip(i + 1))
        + rest));
    lemma_whole_frame_is_yielded(frames[i], encode_all(frames.skip(i + 1)) + rest, needs_read);
}

/// A decoder that has nothing buffered and reads one encoded frame hands over
/// that frame, with its kind and payload, and has nothing buffered after.
pub proof fn lemma_read_frame_is_yielded(frame: FrameView, read: ReadOutcome)
    requires
        frame.is_encodable(),
        read matches ReadOutcome::Ready(data) && data@ == frame.encoding(),
    ensures
        step(Seq::empty(), true, read) == (Step {
            buffered: Seq::empty(),
            needs_read: false,
            result: Ok(Async::Ready(Some(frame))),
        }),
{
    lemma_whole_frame_is_yielded(frame, Seq::empty(), true);
    assert(Seq::<u8>::empty() + frame.encoding() =~= frame.encoding() + Seq::<u8>::empty());
}

/// A step that finds an encoded frame cut short, wherever the cut falls,
/// keeps the bytes. It fails with `Overflow` where they are exactly one read
/// increment, and else hands over nothing yet and asks for a read.
pub proof fn lemma_truncated_frame_waits(frame: FrameView, k: int, needs_read: bool)
    requires
        frame.is_encodable(),
        0 <= k < frame.encoding().len(),
    ensures
        k != FrameStream::READ_SIZE ==> decode_step(frame.encoding().take(k), needs_read) == (Step {
            buffered: frame.encoding().take(k),
            needs_read: true,
            result: Ok(Async::NotReady),
        }),
        k == FrameStream::READ_SIZE ==> decode_step(frame.encoding().take(k), needs_read) == (Step {
            buffered: frame.encoding().take(k),
            needs_read,
            result: Err(Error::Overflow),
        }),
{
    crate::proto::frame::lemma_decode_truncated(frame, k);
}

/// A decoder that has nothing buffered and reads an encoded frame that lacks
/// its last byte hands over nothing yet, unless what it read is exactly one
/// read increment.
pub proof fn lemma_read_truncated_frame_suspends(frame: FrameView, read: ReadOutcome)
    requires
        frame.is_encodable(),
        read matches ReadOutcome::Ready(data) && data@ == frame.encoding().drop_last(),
        frame.encoding().len() - 1 != FrameStream::READ_SIZE,
    ensures
        step(Seq::empty(), true, read).result == Ok::<Async<Option<FrameView>>, Error>(
            Async::NotReady,
        ),
        step(Seq::empty(), true, read).needs_read,
{
    let e = frame.encoding();
    let k = e.len() - 1;
    assert(e.drop_last() =~= e.take(k));
    assert(Seq::<u8>::empty() + e.take(k) =~= e.take(k));
    lemma_truncated_frame_waits(frame, k, true);
    if k == 0 {
    }
}

/// A decoder that has nothing buffered and reads, in one read, two encoded
/// frames and a third cut short hands over the first, then the second, then
/// nothing yet; the second and third step look at no read.
pub proof fn lemma_two_frames_then_truncated(
    first: FrameView,
    second: FrameView,
    third: FrameView,
    k: int,
    read: ReadOutcome,
    later: ReadOutcome,
    last: ReadOutcome,
)
    requires
        first.is_encodable(),
        second.is_encodable(),
        third.is_encodable(),
        0 <= k < third.encoding().len(),
        read matches ReadOutcome::Ready(data) && data@ == first.encoding() + second.encoding()
            + third.encoding().take(k) && data@.len() <= FrameStream::READ_SIZE,
    ensures
        ({
            let one = step(Seq::empty(), true, read);
            let two = step(one.buffered, one.needs_read, later);
            let three = step(two.buffered, two.needs_read, last);
            &&& one.result == Ok::<Async<Option<FrameView>>, Error>(Async::Ready(Some(first)))
            &&& two.result == Ok::<Async<Option<FrameView>>, Error>(Async::Ready(Some(second)))
            &&& three.result == Ok::<Async<Option<FrameView>>, Error>(Async::NotReady)
            &&& three.needs_read
            &&& three.buffered == third.encoding().take(k)
        }),
{
    let cut = third.encoding().take(k);
    let data = first.encoding() + second.encoding() + cut;
    assert(Seq::<u8>::empty() + data =~= first.encoding() + (second.encoding() + cut));
    lemma_whole_frame_is_yielded(first, second.encoding() + cut, true);
    lemma_whole_frame_is_yielded(second, cut, false);
    lemma_truncated_frame_waits(third, k, false);
}

/// A decoder that reads exactly one read increment, the start of an encoded
/// frame that is longer, fails with `Overflow`.
pub proof fn lemma_oversized_frame_overflows(frame: FrameView, read: ReadOutcome)
    requires
        frame.is_encodable(),
        frame.encoding().len() > FrameStream::READ_SIZE,
        read matches ReadOutcome::Ready(data) && data@ == frame.encoding().take(
            FrameStream::READ_SIZE as int,
        ),
    ensures
        step(Seq::empty(), true, read).result == Err::<Async<Option<FrameView>>, Error>(
            Error::Overflow,
        ),
{
    let cut = frame.encoding().take(FrameStream::READ_SIZE as int);
    assert(Seq::<u8>::empty() + cut =~= cut);
    lemma_truncated_frame_waits(frame, FrameStream::READ_SIZE as int, true);
}

/// A decoder whose source has ended, a read of no bytes, ends the sequence of
/// frames, whatever it has buffered, and keeps its state.
pub proof fn lemma_end_of_stream_ends(buffered: Seq<u8>, read: ReadOutcome)
    requires
        read matches ReadOutcome::Ready(data) && data@.len() == 0,
    ensures
        step(buffered, true, read) == (Step {
            buffered,
            needs_read: true,
            result: Ok(Async::Ready(None)),
        }),
{
}

/// Decodes the frames of one byte source. It holds the bytes read and not yet
/// decoded, and whether another read is needed before decoding can succeed.
pub struct FrameStream {
    buf: BytesMut,
    need_read: bool,
}

impl FrameStream {
    /// The read increment: the most bytes that one read asks of the source.
    pub const READ_SIZE: usize = 10240;

    /// The bytes read and not yet decoded.
    pub closed spec fn buffered(&self) -> Seq<u8> {
        contents(self.buf)
    }

    /// Whether the next step begins with a read.
    pub closed spec fn needs_read(&self) -> bool {
        self.need_read
    }

    /// A decoder that has read nothing yet.
    pub fn new() -> (stream: FrameStream)
        ensures
            stream.buffered() == Seq::<u8>::empty(),
            stream.needs_read(),
    {
        FrameStream { buf: BytesMut::new(), need_read: true }
    }

    /// Whether the next step begins with a read.
    pub fn need_read(&self) -> (b: bool)
        ensures
            b == self.needs_read(),
    {
        self.need_read
    }

    /// The number of bytes read and not yet decoded.
    pub fn buffered_len(&self) -> (n: usize)
        ensures
            n == self.buffered().len(),
    {
        self.buf.len()
    }

    /// One production step. `read` is what one attempt to read at most
    /// `READ_SIZE` bytes from the source came to; it is looked at only where
    /// the step begins with a read, and the attempt need not be made
    /// otherwise.
    ///
    /// A step that reads ends there if the source failed (the error is handed
    /// on), had nothing (not ready), or has ended (ready, with no frame).
    /// Otherwise the step decodes one frame from the start of the buffer. A
    /// whole frame is taken out of the buffer and handed over. Where the
    /// buffer ends before the frame does, the step fails with `Overflow` if
    /// the buffer holds exactly one read increment, and else is not ready and
    /// asks for a read. Any other failure to decode is handed on.
    pub fn poll(&mut self, read: ReadOutcome<'_>) -> (res: Result<Async<Option<HttpFrame>>, Error>)
        requires
            old(self).needs_read() ==> (read matches ReadOutcome::Ready(data) ==> data@.len()
                <= Self::READ_SIZE && old(self).buffered().len() + data@.len() <= isize::MAX),
        ensures
            final(self).buffered() == step(old(self).buffered(), old(self).needs_read(), read).buffered,
            final(self).needs_read() == step(
                old(self).buffered(),
                old(self).needs_read(),
                read,
            ).needs_read,
            result_view(res) == step(old(self).buffered(), old(self).needs_read(), read).result,
    {
        if self.need_read {
            match read {
                ReadOutcome::Failed(e) => {
                    return Err(Error::from(e));
                },
                ReadOutcome::NotReady => {
                    return Ok(Async::NotReady);
                },
                ReadOutcome::Ready(data) => {
                    if data.len() == 0 {
                        return Ok(Async::Ready(None));
                    }
                    self.buf.extend_from_slice(data);
                },
            }
        }
        let bytes: &[u8] = self.buf.as_ref();
        let decoded = HttpFrame::decode(bytes);
        match decoded {
            Ok((frame, pos)) => {
                self.need_read = false;
                self.buf.advance(pos);
                Ok(Async::Ready(Some(frame)))
            },
            Err(crate::proto::frame::Error::UnexpectedEnd) => {
                if self.buf.len() == Self::READ_SIZE {
                    Err(Error::Overflow)
                } else {
                    self.need_read = true;
                    Ok(Async::NotReady)
                }
            },
            Err(e) => Err(Error::from(e)),
        }
    }
}

} // verus!
