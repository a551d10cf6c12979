//! A small wire format, as an example of a codec that keeps the contracts
//! of [`Decoder`] and [`Encoder`]: one length byte, then that many bytes of
//! payload. One byte of payload is an unsigned 8-bit value, two are an
//! unsigned 16-bit value with the high byte first, and any other length is
//! a frame that this format does not know.
use vstd::prelude::*;
use bytes::BytesMut;
use crate::buffer::{buf_advance, buf_slice};
use crate::codec::{Decoder, Encoder, Parsed};
use crate::laws::frame_at_front;

verus! {

/// A message of the length-prefixed format.
#[derive(Debug, Clone, Copy, PartialEq, Eq)]
pub enum Value {
    U8(u8),
    U16(u16),
    /// A frame of a length that the format does not know. It can be
    /// received, never sent.
    Unrecognised,
}

/// The one error of the format: the message has no frame.
#[derive(Debug, Clone, Copy, PartialEq, Eq)]
pub struct Unencodable;

/// The length-prefixed format.
pub struct LengthPrefixed;

/// The frame of a message: the length byte and the payload. A message
/// without a frame gives no bytes.
pub open spec fn frame_of(v: Value) -> Seq<u8> {
    match v {
        Value::U8(x) => seq![1u8, x],
        Value::U16(x) => seq![2u8, (x / 256) as u8, (x % 256) as u8],
        Value::Unrecognised => Seq::empty(),
    }
}

/// What the bytes `acc` hold at their front.
pub open spec fn parse_prefixed(acc: Seq<u8>) -> Parsed<Value, Unencodable> {
    if acc.len() == 0 || acc.len() < acc[0] + 1 {
        Parsed::Incomplete
    } else if acc[0] == 1 {
        Parsed::Produced { item: Value::U8(acc[1]), used: 2 }
    } else if acc[0] == 2 {
        Parsed::Produced { item: Value::U16((acc[1] * 256 + acc[2]) as u16), used: 3 }
    } else {
        Parsed::Produced { item: Value::Unrecognised, used: (acc[0] + 1) as nat }
    }
}

impl Decoder for LengthPrefixed {
    type Item = Value;

    type Error = Unencodable;

    open spec fn parse(&self, acc: Seq<u8>) -> Parsed<Value, Unencodable> {
        parse_prefixed(acc)
    }

    fn decode(&mut self, src: &mut BytesMut) -> (r: Result<Option<Value>, Unencodable>) {
        let data = buf_slice(src);
        if data.len() < 1 {
            return Ok(None);
        }
        let len: u8 = data[0];
        let need: usize = len as usize + 1;
        if data.len() < need {
            return Ok(None);
        }
        let item = if len == 1 {
            Value::U8(data[1])
        } else if len == 2 {
            Value::U16((data[1] as u16) * 256 + (data[2] as u16))
        } else {
            Value::Unrecognised
        };
        buf_advance(src, need);
        Ok(Some(item))
    }
}

impl Encoder<Value> for LengthPrefixed {
    type Error = Unencodable;

    open spec fn encoded(&self, item: Value) -> Result<Seq<u8>, Unencodable> {
        match item {
            Value::Unrecognised => Err(Unencodable),
            _ => Ok(frame_of(item)),
        }
    }

    fn encode(&mut self, item: Value, dst: &mut BytesMut) -> (r: Result<(), Unencodable>) {
        let mut frame: Vec<u8> = Vec::new();
        match item {
            Value::U8(x) => {
                frame.push(1);
                frame.push(x);
            },
            Value::U16(x) => {
                frame.push(2);
                frame.push((x / 256) as u8);
                frame.push((x % 256) as u8);
            },
            Value::Unrecognised => {
                return Err(Unencodable);
            },
        }
        proof {
            assert(frame@ == frame_of(item));
        }
        dst.extend_from_slice(frame.as_slice());
        Ok(())
    }
}

/// The decoder takes the encoder's frames: a stream that begins with the
/// frame of a message holds that message at its front, whatever follows.
pub proof fn frame_is_taken(item: Value, rest: Seq<u8>)
    requires
        item != Value::Unrecognised,
    ensures
        frame_at_front(LengthPrefixed, frame_of(item) + rest, item, frame_of(item).len()),
{
    let stream = frame_of(item) + rest;
    let used = frame_of(item).len();
    assert forall|k: int| 0 < k <= stream.len() implies (#[trigger] stream.take(k))[0]
        == stream[0] by {}
    assert forall|k: int| 0 <= k < used implies (#[trigger] LengthPrefixed.parse(
        stream.take(k),
    )) is Incomplete by {
        if k > 0 {
            assert(stream.take(k)[0] == stream[0]);
        }
    }
    assert forall|k: int| used <= k <= stream.len() implies #[trigger] LengthPrefixed.parse(
        stream.take(k),
    ) == (Parsed::<Value, Unencodable>::Produced { item, used }) by {
        let acc = stream.take(k);
        assert(acc[0] == stream[0]);
        assert(acc[1] == stream[1]);
        match item {
            Value::U16(x) => {
                assert(acc[2] == stream[2]);
                assert(((x / 256) as u8) * 256 + ((x % 256) as u8) == x);
            },
            _ => {},
        }
    }
}

} // verus!
