//! The assembler, the sender and their pair.
//!
//! A [`FramedRead`] owns a source, a decoder and the accumulator between
//! them. A [`FramedWrite`] owns a sink and an encoder. A [`Framed`] owns one
//! of each; the two share nothing, so the pair can be taken apart.
use vstd::prelude::*;
use vstd::slice::slice_subrange;
use bytes::BytesMut;
use crate::buffer::{buf_bytes, buf_slice, MAX_BUFFERED};
use crate::codec::{Decoder, Encoder, Parsed};
use crate::error::FrameError;
use crate::stream::{ByteSink, ByteSource};

verus! {

/// The capacity that a fresh buffer reserves, and the most that one read
/// asks of the source.
pub const INITIAL_CAPACITY: usize = 8 * 1024;

/// Reads messages from a byte source.
pub struct FramedRead<R, D> {
    inner: R,
    decoder: D,
    buf: BytesMut,
    limit: usize,
}

/// Writes messages to a byte sink.
pub struct FramedWrite<W, E> {
    inner: W,
    encoder: E,
}

/// An assembler and a sender, held together.
pub struct Framed<R, W, D, E> {
    reader: FramedRead<R, D>,
    writer: FramedWrite<W, E>,
}

/// Whether `after` is what stays of `before` when bytes have left its front.
pub open spec fn is_tail_of(after: Seq<u8>, before: Seq<u8>) -> bool {
    after.len() <= before.len() && after == before.skip(before.len() - after.len())
}

/// What one read owes, whatever the source did.
///
/// `first` is what the accumulator held before the call and `waiting` what
/// the source had pending; `held` and `pending` are the two after the call.
/// `seen` is then every byte that has entered the accumulator.
pub open spec fn read_meets<D: Decoder, S>(
    rule: D,
    ceiling: nat,
    first: Seq<u8>,
    waiting: Seq<u8>,
    held: Seq<u8>,
    pending: Seq<u8>,
    r: Result<D::Item, FrameError<S, D::Error>>,
) -> bool {
    let seen = first + waiting.take(waiting.len() - pending.len());
    match r {
        Ok(item) => {
            &&& is_tail_of(pending, waiting)
            &&& is_tail_of(held, seen)
            &&& rule.parse(seen) == Parsed::<D::Item, D::Error>::Produced {
                item,
                used: (seen.len() - held.len()) as nat,
            }
        },
        Err(FrameError::Codec(e)) => {
            &&& is_tail_of(pending, waiting)
            &&& rule.parse(seen) == Parsed::<D::Item, D::Error>::Failed(e)
        },
        Err(FrameError::UnexpectedEof) => {
            &&& is_tail_of(pending, waiting)
            &&& held == seen
            &&& rule.parse(held) is Incomplete
        },
        Err(FrameError::FrameTooLarge) => {
            &&& is_tail_of(pending, waiting)
            &&& seen.len() > ceiling
            &&& rule.parse(held) is Incomplete
        },
        Err(FrameError::Io(_)) => rule.parse(held) is Incomplete,
        Err(FrameError::WriteZero) => false,
    }
}

impl<R, D> FramedRead<R, D> {
    /// The bytes received and not yet consumed into a message.
    pub closed spec fn buffered(&self) -> Seq<u8> {
        buf_bytes(self.buf)
    }

    /// The source that this assembler drains.
    pub closed spec fn source(&self) -> R {
        self.inner
    }

    /// The decoder that this assembler drives.
    pub closed spec fn codec(&self) -> D {
        self.decoder
    }

    /// The most bytes that the accumulator may hold.
    pub closed spec fn ceiling(&self) -> nat {
        if self.limit < MAX_BUFFERED {
            self.limit as nat
        } else {
            MAX_BUFFERED as nat
        }
    }

    /// An assembler over `inner` with an empty accumulator, bounded only by
    /// what a buffer can hold.
    pub fn new(inner: R, decoder: D) -> (s: Self)
        ensures
            s.buffered() == Seq::<u8>::empty(),
            s.source() == inner,
            s.codec() == decoder,
            s.ceiling() == MAX_BUFFERED,
    {
        Self { inner, decoder, buf: BytesMut::with_capacity(INITIAL_CAPACITY), limit: MAX_BUFFERED }
    }

    /// An assembler that refuses to accumulate more than `limit` bytes.
    pub fn with_limit(inner: R, decoder: D, limit: usize) -> (s: Self)
        ensures
            s.buffered() == Seq::<u8>::empty(),
            s.source() == inner,
            s.codec() == decoder,
            s.ceiling() == if limit < MAX_BUFFERED { limit } else { MAX_BUFFERED },
    {
        Self { inner, decoder, buf: BytesMut::with_capacity(INITIAL_CAPACITY), limit }
    }
}

impl<R: ByteSource, D: Decoder> FramedRead<R, D> {
    /// What one read does: `before` and `after` are the assembler around
    /// the call, `r` is what it returned. The format and the ceiling stay;
    /// the result and the bytes left over are as [`read_meets`] says; when
    /// the accumulator already settles the matter, the source is not
    /// touched; and a steady source stays steady, gives no fault, and is
    /// found at its end only when nothing is pending.
    pub open spec fn reads(
        before: Self,
        after: Self,
        r: Result<D::Item, FrameError<R::Fault, D::Error>>,
    ) -> bool {
        let first = before.codec().parse(before.buffered());
        &&& after.ceiling() == before.ceiling()
        &&& forall|acc: Seq<u8>| #[trigger] after.codec().parse(acc) == before.codec().parse(acc)
        &&& read_meets(
            before.codec(),
            before.ceiling(),
            before.buffered(),
            before.source().pending(),
            after.buffered(),
            after.source().pending(),
            r,
        )
        &&& !(first is Incomplete) ==> after.source() == before.source()
        &&& first is Produced ==> r is Ok
        &&& first is Failed ==> r is Err && r->Err_0 is Codec
        &&& before.source().steady() ==> {
            &&& after.source().steady()
            &&& !(r is Err && r->Err_0 is Io)
            &&& (r is Err && r->Err_0 is UnexpectedEof) ==> after.source().pending().len() == 0
        }
    }

    /// The source, for a look at it.
    pub fn get_ref(&self) -> (inner: &R)
        ensures
            *inner == self.source(),
    {
        &self.inner
    }

    /// Takes one chunk that the source delivered. An empty chunk is the end
    /// of the stream; one that would pass the ceiling is refused; any other
    /// goes to the back of the accumulator.
    pub fn accept(&mut self, chunk: &[u8]) -> (r: Result<(), FrameError<R::Fault, D::Error>>)
        ensures
            final(self).source() == old(self).source(),
            final(self).codec() == old(self).codec(),
            final(self).ceiling() == old(self).ceiling(),
            chunk@.len() == 0 ==> r == Err::<(), FrameError<R::Fault, D::Error>>(FrameError::UnexpectedEof),
            chunk@.len() > 0 && old(self).buffered().len() + chunk@.len() > old(self).ceiling()
                ==> r == Err::<(), FrameError<R::Fault, D::Error>>(FrameError::FrameTooLarge),
            0 < chunk@.len() && old(self).buffered().len() + chunk@.len() <= old(self).ceiling()
                ==> r == Ok::<(), FrameError<R::Fault, D::Error>>(()),
            r is Ok ==> final(self).buffered() == old(self).buffered() + chunk@,
            r is Err ==> final(self).buffered() == old(self).buffered(),
    {
        if chunk.len() == 0 {
            return Err(FrameError::UnexpectedEof);
        }
        let held: usize = self.buf.len();
        let cap: usize = if self.limit < MAX_BUFFERED { self.limit } else { MAX_BUFFERED };
        if held > cap || chunk.len() > cap - held {
            return Err(FrameError::FrameTooLarge);
        }
        self.buf.extend_from_slice(chunk);
        Ok(())
    }

    /// Reads one message. The accumulator is tried first, so that a message
    /// already buffered costs no read; while it is incomplete, one chunk at
    /// a time is pulled from the source and appended.
    pub fn read_one(&mut self) -> (r: Result<D::Item, FrameError<R::Fault, D::Error>>)
        ensures
            Self::reads(*old(self), *final(self), r),
    {
        let ghost rule = self.decoder;
        let ghost source = self.inner;
        let ghost first = buf_bytes(self.buf);
        let ghost stream = buf_bytes(self.buf) + self.inner.pending();
        proof {
            assert(source.pending().skip(0) == source.pending());
        }
        loop
            invariant
                self.ceiling() == old(self).ceiling(),
                rule == old(self).codec(),
                source == old(self).source(),
                first == old(self).buffered(),
                stream == first + source.pending(),
                forall|acc: Seq<u8>| #[trigger] self.decoder.parse(acc) == rule.parse(acc),
                buf_bytes(self.buf) + self.inner.pending() == stream,
                is_tail_of(self.inner.pending(), source.pending()),
                source.steady() ==> self.inner.steady(),
                buf_bytes(self.buf).len() >= first.len(),
                buf_bytes(self.buf).len() == first.len() ==> self.inner == source
                    && buf_bytes(self.buf) == first,
                buf_bytes(self.buf).len() > first.len() ==> rule.parse(first) is Incomplete,
            decreases self.ceiling() - buf_bytes(self.buf).len(),
        {
            let ghost acc = buf_bytes(self.buf);
            proof {
                let left = self.inner.pending();
                let waiting = source.pending();
                assert(stream.take(stream.len() - left.len()) == acc);
                assert(first + waiting.take(waiting.len() - left.len()) == stream.take(
                    stream.len() - left.len(),
                ));
            }
            match self.decoder.decode(&mut self.buf) {
                Ok(Some(item)) => {
                    return Ok(item);
                },
                Ok(None) => {},
                Err(e) => {
                    return Err(FrameError::Codec(e));
                },
            }
            let ghost waiting = self.inner.pending();
            let chunk = match self.inner.read_chunk(INITIAL_CAPACITY) {
                Ok(chunk) => chunk,
                Err(fault) => {
                    return Err(FrameError::Io(fault));
                },
            };
            proof {
                let n = chunk@.len() as int;
                let begun = source.pending();
                let left = waiting.skip(n);
                assert(acc + waiting.take(n) + left == stream);
                assert(left == begun.skip(begun.len() - left.len()));
                assert(stream.take(stream.len() - left.len()) == acc + chunk@);
                assert(first + begun.take(begun.len() - left.len()) == stream.take(
                    stream.len() - left.len(),
                ));
            }
            match self.accept(chunk.as_slice()) {
                Ok(()) => {},
                Err(e) => {
                    return Err(e);
                },
            }
        }
    }
}

/// What one write owes, whatever the sink did.
///
/// `encoded` is the format's answer for the message; `before` and `after`
/// are what the sink had received around the call.
pub open spec fn write_meets<S, C>(
    encoded: Result<Seq<u8>, C>,
    before: Seq<u8>,
    after: Seq<u8>,
    r: Result<(), FrameError<S, C>>,
) -> bool {
    match encoded {
        Err(e) => r == Err::<(), FrameError<S, C>>(FrameError::Codec(e)) && after == before,
        Ok(frame) => match r {
            Ok(()) => after == before + frame,
            Err(FrameError::Io(_)) => {
                &&& before.len() <= after.len() <= before.len() + frame.len()
                &&& after == before + frame.take(after.len() - before.len())
            },
            Err(FrameError::WriteZero) => {
                &&& before.len() <= after.len() < before.len() + frame.len()
                &&& after == before + frame.take(after.len() - before.len())
            },
            Err(_) => false,
        },
    }
}

impl<W, E> FramedWrite<W, E> {
    /// The sink that this sender feeds.
    pub closed spec fn sink(&self) -> W {
        self.inner
    }

    /// The encoder that this sender drives.
    pub closed spec fn codec(&self) -> E {
        self.encoder
    }

    /// A sender over `inner`.
    pub fn new(inner: W, encoder: E) -> (s: Self)
        ensures
            s.sink() == inner,
            s.codec() == encoder,
    {
        Self { inner, encoder }
    }
}

impl<W: ByteSink, E> FramedWrite<W, E> {
    /// What one write does: `before` and `after` are the sender around the
    /// call, `item` the message, `r` what the call returned. The format
    /// stays; a message without a frame leaves the sink as it was; what the
    /// sink has received is as [`write_meets`] says; and with a steady sink
    /// only the codec can make the write fail.
    pub open spec fn writes<I>(
        before: Self,
        after: Self,
        item: I,
        r: Result<(), FrameError<W::Fault, E::Error>>,
    ) -> bool where E: Encoder<I> {
        &&& forall|m: I| #[trigger] after.codec().encoded(m) == before.codec().encoded(m)
        &&& before.codec().encoded(item) is Err ==> after.sink() == before.sink()
        &&& write_meets(
            before.codec().encoded(item),
            before.sink().received(),
            after.sink().received(),
            r,
        )
        &&& before.sink().steady() ==> {
            &&& after.sink().steady()
            &&& !(r is Err && r->Err_0 is Io)
            &&& !(r is Err && r->Err_0 is WriteZero)
        }
    }

    /// The sink, for a look at it.
    pub fn get_ref(&self) -> (inner: &W)
        ensures
            *inner == self.sink(),
    {
        &self.inner
    }

    /// Writes one message. It is serialised into a fresh buffer; if that
    /// fails the sink is not touched. Otherwise the sink is offered what is
    /// left of the frame until it has taken every byte, and is then flushed.
    pub fn write_one<I>(&mut self, item: I) -> (r: Result<(), FrameError<W::Fault, E::Error>>) where
        E: Encoder<I>,

        ensures
            Self::writes(*old(self), *final(self), item, r),
    {
        let ghost before = self.inner.received();
        let mut dst = BytesMut::with_capacity(INITIAL_CAPACITY);
        match self.encoder.encode(item, &mut dst) {
            Ok(()) => {},
            Err(e) => {
                return Err(FrameError::Codec(e));
            },
        }
        let ghost frame = buf_bytes(dst);
        proof {
            assert(Seq::<u8>::empty() + old(self).codec().encoded(item)->Ok_0 == frame);
        }
        let data = buf_slice(&dst);
        let total: usize = data.len();
        let mut sent: usize = 0;
        while sent < total
            invariant
                data@ == frame,
                total == frame.len(),
                sent <= total,
                self.inner.received() == before + frame.take(sent as int),
                old(self).codec().encoded(item) == Ok::<Seq<u8>, E::Error>(frame),
                before == old(self).sink().received(),
                old(self).sink().steady() ==> self.inner.steady(),
                forall|m: I| #[trigger] self.encoder.encoded(m) == old(self).codec().encoded(m),
            decreases total - sent,
        {
            let rest = slice_subrange(data, sent, total);
            match self.inner.write(rest) {
                Ok(n) => {
                    if n == 0 {
                        return Err(FrameError::WriteZero);
                    }
                    proof {
                        assert(frame.take(sent as int) + rest@.take(n as int) == frame.take(
                            sent + n,
                        ));
                    }
                    sent = sent + n;
                },
                Err(fault) => {
                    return Err(FrameError::Io(fault));
                },
            }
        }
        proof {
            assert(frame.take(sent as int) == frame);
        }
        match self.inner.flush() {
            Ok(()) => Ok(()),
            Err(fault) => Err(FrameError::Io(fault)),
        }
    }
}

impl<R, W, D, E> Framed<R, W, D, E> {
    /// The assembler of this pair.
    pub closed spec fn read_half(&self) -> FramedRead<R, D> {
        self.reader
    }

    /// The sender of this pair.
    pub closed spec fn write_half(&self) -> FramedWrite<W, E> {
        self.writer
    }

    /// A pair of a fresh assembler over `reader` and a fresh sender over
    /// `writer`.
    pub fn new(reader: R, writer: W, decoder: D, encoder: E) -> (s: Self)
        ensures
            s.read_half().buffered() == Seq::<u8>::empty(),
            s.read_half().source() == reader,
            s.read_half().codec() == decoder,
            s.read_half().ceiling() == MAX_BUFFERED,
            s.write_half().sink() == writer,
            s.write_half().codec() == encoder,
    {
        Framed { reader: FramedRead::new(reader, decoder), writer: FramedWrite::new(writer, encoder) }
    }

    /// Takes the pair apart: each half goes on exactly as it stood.
    pub fn split(self) -> (halves: (FramedRead<R, D>, FramedWrite<W, E>))
        ensures
            halves.0 == self.read_half(),
            halves.1 == self.write_half(),
    {
        (self.reader, self.writer)
    }
}

/// Reading one message at a time.
pub trait FramedReader<I> {
    type Error;

    /// Blocks until one message has been assembled, or says why none can be.
    fn framed_read(&mut self) -> Result<I, Self::Error>;
}

/// Writing one message at a time.
pub trait FramedWriter<I> {
    type Error;

    /// Returns once every byte of the message has reached the sink and the
    /// sink is flushed, or says why that failed.
    fn framed_write(&mut self, item: I) -> Result<(), Self::Error>;
}

impl<R: ByteSource, D: Decoder> FramedReader<D::Item> for FramedRead<R, D> {
    type Error = FrameError<R::Fault, D::Error>;

    fn framed_read(&mut self) -> (r: Result<D::Item, FrameError<R::Fault, D::Error>>)
        ensures
            Self::reads(*old(self), *final(self), r),
    {
        self.read_one()
    }
}

impl<I, W: ByteSink, E: Encoder<I>> FramedWriter<I> for FramedWrite<W, E> {
    type Error = FrameError<W::Fault, E::Error>;

    fn framed_write(&mut self, item: I) -> (r: Result<(), FrameError<W::Fault, E::Error>>)
        ensures
            Self::writes(*old(self), *final(self), item, r),
    {
        self.write_one(item)
    }
}

impl<R: ByteSource, W, D: Decoder, E> FramedReader<D::Item> for Framed<R, W, D, E> {
    type Error = FrameError<R::Fault, D::Error>;

    fn framed_read(&mut self) -> (r: Result<D::Item, FrameError<R::Fault, D::Error>>)
        ensures
            FramedRead::reads(old(self).read_half(), final(self).read_half(), r),
            final(self).write_half() == old(self).write_half(),
    {
        self.reader.read_one()
    }
}

impl<I, R, W: ByteSink, D, E: Encoder<I>> FramedWriter<I> for Framed<R, W, D, E> {
    type Error = FrameError<W::Fault, E::Error>;

    fn framed_write(&mut self, item: I) -> (r: Result<(), FrameError<W::Fault, E::Error>>)
        ensures
            FramedWrite::writes(old(self).write_half(), final(self).write_half(), item, r),
            final(self).read_half() == old(self).read_half(),
    {
        self.writer.write_one(item)
    }
}

} // verus!
