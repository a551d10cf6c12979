//! The two capabilities that an application supplies: a [`Decoder`] and an
//! [`Encoder`]. Each carries its wire format as a spec function, and the
//! contract of its one method ties the executable code to that format.
use vstd::prelude::*;
use bytes::BytesMut;
use crate::buffer::{buf_bytes, MAX_BUFFERED};

verus! {

/// A sequence of bytes, as the contracts speak of it.
pub type ByteSeq = Seq<u8>;

/// What a decoding rule makes of the bytes accumulated so far.
pub enum Parsed<T, E> {
    /// A whole frame stands at the front: `used` bytes of it give `item`.
    Produced { item: T, used: nat },
    /// The bytes are the beginning of a frame, and more are needed.
    Incomplete,
    /// The bytes can never become a frame.
    Failed(E),
}

/// Whether one call of `decode` did what the rule `parsed` asks: `before`
/// and `after` are the accumulator around the call, `r` is what it returned.
pub open spec fn decode_meets<T, E>(
    parsed: Parsed<T, E>,
    before: Seq<u8>,
    after: Seq<u8>,
    r: Result<Option<T>, E>,
) -> bool {
    match parsed {
        Parsed::Produced { item, used } => {
            &&& r == Ok::<Option<T>, E>(Some(item))
            &&& used <= before.len()
            &&& after == before.skip(used as int)
        },
        Parsed::Incomplete => r == Ok::<Option<T>, E>(None) && after == before,
        Parsed::Failed(e) => r == Err::<Option<T>, E>(e),
    }
}

/// Whether one call of `encode` did what the format asks: `encoded` is the
/// format's answer for the message, `before` and `after` are the output
/// buffer around the call, `r` is what it returned.
pub open spec fn encode_meets<E>(
    encoded: Result<Seq<u8>, E>,
    before: Seq<u8>,
    after: Seq<u8>,
    r: Result<(), E>,
) -> bool {
    match encoded {
        Ok(frame) => r == Ok::<(), E>(()) && after == before + frame,
        Err(e) => r == Err::<(), E>(e),
    }
}

/// Extracts at most one message from the front of an accumulator.
pub trait Decoder {
    type Item;
    type Error;

    /// The wire format: what `acc` holds, read from its front.
    spec fn parse(&self, acc: Seq<u8>) -> Parsed<Self::Item, Self::Error>;

    /// Applies the format to `src`. A produced message leaves `src` without
    /// the bytes of its frame; an incomplete one leaves `src` as it was. The
    /// format itself does not change from call to call.
    fn decode(&mut self, src: &mut BytesMut) -> (r: Result<Option<Self::Item>, Self::Error>)
        ensures
            decode_meets(
                old(self).parse(buf_bytes(*old(src))),
                buf_bytes(*old(src)),
                buf_bytes(*final(src)),
                r,
            ),
            forall|acc: Seq<u8>| #[trigger] final(self).parse(acc) == old(self).parse(acc),
    ;
}

/// Serialises one message at the back of an output buffer.
pub trait Encoder<I> {
    type Error;

    /// The wire format: the frame of `item`, or why it has none.
    spec fn encoded(&self, item: I) -> Result<Seq<u8>, Self::Error>;

    /// Appends the frame of `item` to `dst`, whatever `dst` held, as long as
    /// half of what a buffer can hold is still free. The format itself does
    /// not change from call to call.
    fn encode(&mut self, item: I, dst: &mut BytesMut) -> (r: Result<(), Self::Error>)
        requires
            buf_bytes(*old(dst)).len() <= MAX_BUFFERED / 2,
        ensures
            encode_meets(
                old(self).encoded(item),
                buf_bytes(*old(dst)),
                buf_bytes(*final(dst)),
                r,
            ),
            forall|m: I| #[trigger] final(self).encoded(m) == old(self).encoded(m),
    ;
}

} // verus!
