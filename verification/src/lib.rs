//! Message framing over blocking byte streams.
//!
//! A [`FramedRead`] turns the bytes of a [`ByteSource`] into messages with a
//! [`Decoder`]; a [`FramedWrite`] turns messages into bytes with an
//! [`Encoder`] and pushes them into a [`ByteSink`]; a [`Framed`] holds one of
//! each. The wire format belongs to the codec: this crate only drives it.
pub mod buffer;
pub mod codec;
pub mod error;
pub mod stream;
pub mod framed;
pub mod laws;
pub mod prefixed;

pub use codec::{ByteSeq, Decoder, Encoder, Parsed};
pub use error::FrameError;
pub use prefixed::{LengthPrefixed, Unencodable, Value};
pub use stream::{ByteSink, ByteSource, MemSink, MemSource};
pub use framed::{Framed, FramedRead, FramedReader, FramedWrite, FramedWriter};
