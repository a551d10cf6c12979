//! What holds of reads and writes taken together.
//!
//! Each law is stated over [`FramedRead::reads`] and [`FramedWrite::writes`],
//! the relations that `framed_read` and `framed_write` guarantee, so it holds
//! of every source, sink and codec that keep their own contracts.
use vstd::prelude::*;
use crate::codec::{Decoder, Encoder, Parsed};
use crate::error::FrameError;
use crate::framed::{is_tail_of, FramedRead, FramedWrite};
use crate::stream::{ByteSink, ByteSource};

verus! {

/// Whether `stream` begins with one frame of `used` bytes that gives `item`:
/// every shorter beginning is incomplete, and from `used` bytes on the rule
/// produces `item` whatever follows.
pub open spec fn frame_at_front<D: Decoder>(rule: D, stream: Seq<u8>, item: D::Item, used: nat) -> bool {
    &&& used <= stream.len()
    &&& forall|k: int| 0 <= k < used ==> (#[trigger] rule.parse(stream.take(k))) is Incomplete
    &&& forall|k: int|
        used <= k <= stream.len() ==> #[trigger] rule.parse(stream.take(k)) == (Parsed::<
            D::Item,
            D::Error,
        >::Produced { item, used })
}

/// A read over a stream that begins with one frame never reports a codec
/// error, and a read that succeeds yields the message of that frame and
/// leaves, in the accumulator and the source together, exactly the bytes
/// that follow the frame. The chunks in which the source hands out the
/// stream do not matter.
pub proof fn first_frame_is_read<R: ByteSource, D: Decoder>(
    before: FramedRead<R, D>,
    after: FramedRead<R, D>,
    r: Result<D::Item, FrameError<R::Fault, D::Error>>,
    item: D::Item,
    used: nat,
)
    requires
        FramedRead::reads(before, after, r),
        frame_at_front(
            before.codec(),
            before.buffered() + before.source().pending(),
            item,
            used,
        ),
    ensures
        !(r matches Err(FrameError::Codec(_))),
        r is Ok ==> r == Ok::<D::Item, FrameError<R::Fault, D::Error>>(item),
        r is Ok ==> after.buffered() + after.source().pending() == (before.buffered()
            + before.source().pending()).skip(used as int),
{
    let stream = before.buffered() + before.source().pending();
    let pending = after.source().pending();
    let held = after.buffered();
    let waiting = before.source().pending();
    let seen = stream.take(stream.len() - pending.len());
    assert(is_tail_of(pending, waiting) ==> seen == before.buffered() + waiting.take(
        waiting.len() - pending.len(),
    ));
    if r is Ok {
        assert(before.codec().parse(seen) is Produced);
        assert(stream.len() - pending.len() >= used);
        assert(seen.skip(used as int) + stream.skip(stream.len() - pending.len()) == stream.skip(
            used as int,
        ));
    }
}

/// Over a steady source, a read of a stream that begins with one frame and
/// fits under the ceiling succeeds: it yields the message of that frame.
pub proof fn steady_read_succeeds<R: ByteSource, D: Decoder>(
    before: FramedRead<R, D>,
    after: FramedRead<R, D>,
    r: Result<D::Item, FrameError<R::Fault, D::Error>>,
    item: D::Item,
    used: nat,
)
    requires
        FramedRead::reads(before, after, r),
        before.source().steady(),
        (before.buffered() + before.source().pending()).len() <= before.ceiling(),
        frame_at_front(
            before.codec(),
            before.buffered() + before.source().pending(),
            item,
            used,
        ),
    ensures
        r == Ok::<D::Item, FrameError<R::Fault, D::Error>>(item),
        after.source().steady(),
        after.buffered() + after.source().pending() == (before.buffered()
            + before.source().pending()).skip(used as int),
{
    let stream = before.buffered() + before.source().pending();
    let waiting = before.source().pending();
    let pending = after.source().pending();
    first_frame_is_read(before, after, r, item, used);
    if r is Err {
        assert(is_tail_of(pending, waiting));
        let seen = before.buffered() + waiting.take(waiting.len() - pending.len());
        assert(seen == stream.take(stream.len() - pending.len()));
        if pending.len() == 0 {
            assert(after.buffered() == seen ==> before.codec().parse(seen) is Produced);
        }
    }
}

/// With a steady sink, a write succeeds exactly when the message has a
/// frame, and the sink has then received the whole frame, however few bytes
/// it took at a time.
pub proof fn steady_write_succeeds<I, W: ByteSink, E: Encoder<I>>(
    before: FramedWrite<W, E>,
    after: FramedWrite<W, E>,
    item: I,
    w: Result<(), FrameError<W::Fault, E::Error>>,
)
    requires
        FramedWrite::writes(before, after, item, w),
        before.sink().steady(),
    ensures
        w is Ok <==> before.codec().encoded(item) is Ok,
        w is Ok ==> after.sink().received() == before.sink().received()
            + before.codec().encoded(item)->Ok_0,
{
}

/// Two reads over a stream that begins with two frames, one behind the
/// other, yield the two messages in order, however the source split the
/// stream: what the first read received beyond its own frame is kept for
/// the second. Both reads are sure to succeed over a steady source whose
/// stream fits under the ceiling; over any other source the law speaks of
/// the reads that did succeed.
pub proof fn two_frames_are_read_in_order<R: ByteSource, D: Decoder>(
    start: FramedRead<R, D>,
    middle: FramedRead<R, D>,
    end: FramedRead<R, D>,
    r1: Result<D::Item, FrameError<R::Fault, D::Error>>,
    r2: Result<D::Item, FrameError<R::Fault, D::Error>>,
    first: D::Item,
    first_used: nat,
    second: D::Item,
    second_used: nat,
)
    requires
        FramedRead::reads(start, middle, r1),
        FramedRead::reads(middle, end, r2),
        (r1 is Ok && r2 is Ok) || (start.source().steady() && (start.buffered()
            + start.source().pending()).len() <= start.ceiling()),
        frame_at_front(
            start.codec(),
            start.buffered() + start.source().pending(),
            first,
            first_used,
        ),
        frame_at_front(
            start.codec(),
            (start.buffered() + start.source().pending()).skip(first_used as int),
            second,
            second_used,
        ),
    ensures
        r1 == Ok::<D::Item, FrameError<R::Fault, D::Error>>(first),
        r2 == Ok::<D::Item, FrameError<R::Fault, D::Error>>(second),
        end.buffered() + end.source().pending() == (start.buffered()
            + start.source().pending()).skip((first_used + second_used) as int),
{
    let stream = start.buffered() + start.source().pending();
    first_frame_is_read(start, middle, r1, first, first_used);
    if !(r1 is Ok && r2 is Ok) {
        steady_read_succeeds(start, middle, r1, first, first_used);
    }
    let rest = stream.skip(first_used as int);
    assert(middle.buffered() + middle.source().pending() == rest);
    assert forall|k: int| 0 <= k <= rest.len() implies #[trigger] middle.codec().parse(
        rest.take(k),
    ) == start.codec().parse(rest.take(k)) by {}
    assert(frame_at_front(middle.codec(), rest, second, second_used));
    first_frame_is_read(middle, end, r2, second, second_used);
    if !(r1 is Ok && r2 is Ok) {
        steady_read_succeeds(middle, end, r2, second, second_used);
    }
    assert(rest.skip(second_used as int) == stream.skip((first_used + second_used) as int));
}

/// A message that the accumulator already holds whole is yielded without a
/// read: the source is as it was, and only the frame has left the
/// accumulator.
pub proof fn buffered_frame_needs_no_read<R: ByteSource, D: Decoder>(
    before: FramedRead<R, D>,
    after: FramedRead<R, D>,
    r: Result<D::Item, FrameError<R::Fault, D::Error>>,
    item: D::Item,
    used: nat,
)
    requires
        FramedRead::reads(before, after, r),
        before.codec().parse(before.buffered()) == (Parsed::<D::Item, D::Error>::Produced {
            item,
            used,
        }),
    ensures
        r == Ok::<D::Item, FrameError<R::Fault, D::Error>>(item),
        after.source() == before.source(),
        used <= before.buffered().len(),
        after.buffered() == before.buffered().skip(used as int),
{
    let stream = before.buffered() + before.source().pending();
    let pending = before.source().pending();
    assert(before.buffered() + pending.take(0) == before.buffered());
}

/// Once the source has nothing more to give, a read over an incomplete
/// accumulator ends in an error of the stream, never in a message and never
/// in an error of the codec.
pub proof fn exhausted_source_ends_read<R: ByteSource, D: Decoder>(
    before: FramedRead<R, D>,
    after: FramedRead<R, D>,
    r: Result<D::Item, FrameError<R::Fault, D::Error>>,
)
    requires
        FramedRead::reads(before, after, r),
        before.source().pending().len() == 0,
        before.codec().parse(before.buffered()) is Incomplete,
    ensures
        r is Err,
        !(r matches Err(FrameError::Codec(_))),
{
    let stream = before.buffered() + before.source().pending();
    assert(stream == before.buffered());
    let waiting = before.source().pending();
    assert(before.buffered() + waiting.take(0) == before.buffered());
}

/// A message that was written whole and is read back from exactly the bytes
/// that the sink received comes back as it was, provided the decoder's
/// format takes the encoder's frame for that message and nothing shorter.
/// Over a steady source with room for the frame the read is sure to succeed.
pub proof fn round_trip<W: ByteSink, E: Encoder<D::Item>, R: ByteSource, D: Decoder>(
    sender: FramedWrite<W, E>,
    sent: FramedWrite<W, E>,
    w: Result<(), FrameError<W::Fault, E::Error>>,
    reader: FramedRead<R, D>,
    read: FramedRead<R, D>,
    r: Result<D::Item, FrameError<R::Fault, D::Error>>,
    item: D::Item,
)
    requires
        FramedWrite::writes(sender, sent, item, w),
        w is Ok,
        sender.sink().received().len() == 0,
        FramedRead::reads(reader, read, r),
        reader.buffered().len() == 0,
        reader.source().pending() == sent.sink().received(),
        sender.codec().encoded(item) is Ok ==> frame_at_front(
            reader.codec(),
            sender.codec().encoded(item)->Ok_0,
            item,
            sender.codec().encoded(item)->Ok_0.len(),
        ),
    ensures
        !(r matches Err(FrameError::Codec(_))),
        r is Ok ==> r == Ok::<D::Item, FrameError<R::Fault, D::Error>>(item),
        r is Ok ==> read.buffered().len() == 0 && read.source().pending().len() == 0,
        reader.source().steady() && sender.codec().encoded(item)->Ok_0.len() <= reader.ceiling()
            ==> r is Ok,
{
    let frame = sender.codec().encoded(item)->Ok_0;
    assert(sent.sink().received() == frame);
    assert(reader.buffered() + reader.source().pending() == frame);
    first_frame_is_read(reader, read, r, item, frame.len());
    if reader.source().steady() && frame.len() <= reader.ceiling() {
        steady_read_succeeds(reader, read, r, item, frame.len());
    }
    if r is Ok {
        assert(frame.skip(frame.len() as int).len() == 0);
        assert((read.buffered() + read.source().pending()).len() == 0);
    }
}

} // verus!
