//! The one error type of the framing layer.
use vstd::prelude::*;

verus! {

/// Why a read or a write of one message failed.
///
/// `S` is the fault type of the stream, `C` the error type of the codec.
#[derive(Debug)]
pub enum FrameError<S, C> {
    /// The stream itself failed.
    Io(S),
    /// The source ended while a message was still awaited.
    UnexpectedEof,
    /// The sink took no byte of a non-empty write.
    WriteZero,
    /// The accumulator would have passed its ceiling.
    FrameTooLarge,
    /// The codec refused the bytes or the message.
    Codec(C),
}

} // verus!
