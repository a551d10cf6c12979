use bytes::{Buf, BufMut, BytesMut};
use framous::{
    ByteSeq, ByteSink, ByteSource, Decoder, Encoder, FrameError, Framed, FramedRead, FramedReader,
    FramedWrite, FramedWriter, LengthPrefixed, MemSink, MemSource, Parsed, Unencodable, Value,
};
use std::io;

#[derive(Debug, PartialEq)]
enum TestMsg {
    U8(u8),
    U16(u16),
    Unrecognised,
}

struct TestCodec;

impl Decoder for TestCodec {
    type Item = TestMsg;
    type Error = io::Error;

    fn parse(&self, _acc: ByteSeq) -> Parsed<TestMsg, io::Error> {
        unreachable!()
    }

    fn decode(&mut self, src: &mut BytesMut) -> Result<Option<Self::Item>, Self::Error> {
        if src.len() < 1 {
            return Ok(None);
        }

        let msg_len = src[0];
        if msg_len == 255 {
            return Err(io::Error::new(io::ErrorKind::InvalidData, "bad length"));
        }
        if src.len() < msg_len as usize + 1 {
            return Ok(None);
        }

        src.advance(1);
        let mut msg = src.split_to(msg_len as usize);

        match msg_len {
            1 => {
                let val = msg.get_u8();
                Ok(Some(TestMsg::U8(val)))
            }
            2 => {
                let val = msg.get_u16();
                Ok(Some(TestMsg::U16(val)))
            }
            _ => Ok(Some(TestMsg::Unrecognised)),
        }
    }
}

impl Encoder<TestMsg> for TestCodec {
    type Error = io::Error;

    fn encoded(&self, _item: TestMsg) -> Result<ByteSeq, io::Error> {
        unreachable!()
    }

    fn encode(&mut self, item: TestMsg, dst: &mut BytesMut) -> Result<(), Self::Error> {
        match item {
            TestMsg::U8(val) => {
                dst.put_u8(1);
                dst.put_u8(val);
            }
            TestMsg::U16(val) => {
                dst.put_u8(2);
                dst.put_u16(val);
            }
            TestMsg::Unrecognised => return Err(io::Error::new(io::ErrorKind::InvalidData, "")),
        }
        Ok(())
    }
}

/// A source that fails on every read.
struct BrokenSource;

impl ByteSource for BrokenSource {
    type Fault = String;

    fn pending(&self) -> ByteSeq {
        unreachable!()
    }

    fn steady(&self) -> bool {
        unreachable!()
    }

    fn read_chunk(&mut self, _max: usize) -> Result<Vec<u8>, String> {
        Err(String::from("unplugged"))
    }
}

/// A sink that takes two bytes and then fails.
struct BrokenSink {
    taken: Vec<u8>,
}

impl ByteSink for BrokenSink {
    type Fault = String;

    fn received(&self) -> ByteSeq {
        unreachable!()
    }

    fn steady(&self) -> bool {
        unreachable!()
    }

    fn write(&mut self, data: &[u8]) -> Result<usize, String> {
        if self.taken.len() >= 2 {
            return Err(String::from("full"));
        }
        self.taken.push(data[0]);
        Ok(1)
    }

    fn flush(&mut self) -> Result<(), String> {
        Ok(())
    }
}

#[test]
fn reader_valid_u8() {
    let r = vec![1u8, 128];
    let mut framed = FramedRead::new(MemSource::new(r), TestCodec);
    let data = framed.framed_read().unwrap();
    assert_eq!(data, TestMsg::U8(128));
}

#[test]
fn reader_valid_u16() {
    let r = vec![2u8, 1, 128];
    let mut framed = FramedRead::new(MemSource::new(r), TestCodec);
    let data = framed.framed_read().unwrap();
    assert_eq!(data, TestMsg::U16(2u16.pow(8) + 128));
}

#[test]
fn read_unrecognised() {
    let r = vec![3u8, 1, 128, 0];
    let mut framed = FramedRead::new(MemSource::new(r), TestCodec);
    let data = framed.framed_read().unwrap();
    assert_eq!(data, TestMsg::Unrecognised);
}

#[test]
fn write_valid_u8() {
    let mut framed = FramedWrite::new(MemSink::new(), TestCodec);
    framed.framed_write(TestMsg::U8(12)).ok();
    assert_eq!(framed.get_ref().bytes().to_vec(), vec![1, 12]);
}

#[test]
fn write_valid_u16() {
    let mut framed = FramedWrite::new(MemSink::new(), TestCodec);
    framed.framed_write(TestMsg::U16(1234)).ok();
    assert_eq!(framed.get_ref().bytes().to_vec(), vec![2, 4, 210]);
}

#[test]
fn invalid_write() {
    let mut framed = FramedWrite::new(MemSink::new(), TestCodec);
    let response = framed.framed_write(TestMsg::Unrecognised);
    assert!(response.is_err());
}

#[test]
fn framed() {
    let reader = vec![2u8, 4, 210];
    let mut framed = Framed::new(MemSource::new(reader), MemSink::new(), TestCodec, TestCodec);
    framed.framed_write(TestMsg::U16(1234)).ok();
    let msg = framed.framed_read().unwrap();
    let (_, writer) = framed.split();
    assert_eq!(writer.get_ref().bytes().to_vec(), vec![2u8, 4, 210]);
    assert_eq!(msg, TestMsg::U16(1234));
}

#[test]
fn encode_failure_leaves_sink_untouched() {
    let mut framed = FramedWrite::new(MemSink::new(), TestCodec);
    framed.framed_write(TestMsg::U8(7)).unwrap();
    let response = framed.framed_write(TestMsg::Unrecognised);
    assert!(matches!(response, Err(FrameError::Codec(_))));
    assert_eq!(framed.get_ref().bytes().to_vec(), vec![1, 7]);
}

#[test]
fn one_byte_at_a_time_still_yields_the_message() {
    let mut framed = FramedRead::new(MemSource::paced(vec![2u8, 1, 128, 1, 9], 1), TestCodec);
    assert_eq!(framed.framed_read().unwrap(), TestMsg::U16(384));
    assert_eq!(framed.framed_read().unwrap(), TestMsg::U8(9));
}

#[test]
fn two_messages_in_one_read_come_in_order() {
    let mut framed = FramedRead::new(MemSource::new(vec![1u8, 5, 2, 1, 128]), TestCodec);
    assert_eq!(framed.framed_read().unwrap(), TestMsg::U8(5));
    assert_eq!(framed.framed_read().unwrap(), TestMsg::U16(384));
    assert!(matches!(framed.framed_read(), Err(FrameError::UnexpectedEof)));
}

#[test]
fn buffered_message_is_read_from_a_dead_source() {
    let mut framed = FramedRead::new(BrokenSource, TestCodec);
    assert!(framed.accept(&[1, 5, 1]).is_ok());
    assert_eq!(framed.framed_read().unwrap(), TestMsg::U8(5));
    assert!(matches!(framed.framed_read(), Err(FrameError::Io(_))));
}

#[test]
fn end_of_stream_before_a_message_is_an_error() {
    let mut framed = FramedRead::new(MemSource::new(vec![2u8, 1]), TestCodec);
    assert!(matches!(framed.framed_read(), Err(FrameError::UnexpectedEof)));
    let mut empty = FramedRead::new(MemSource::new(vec![]), TestCodec);
    assert!(matches!(empty.framed_read(), Err(FrameError::UnexpectedEof)));
}

#[test]
fn empty_chunk_is_refused() {
    let mut framed = FramedRead::new(MemSource::new(vec![]), TestCodec);
    assert!(matches!(framed.accept(&[]), Err(FrameError::UnexpectedEof)));
}

#[test]
fn accumulator_ceiling_is_kept() {
    let data = vec![9u8, 1, 2, 3, 4, 5, 6, 7, 8, 9];
    let mut framed = FramedRead::with_limit(MemSource::paced(data.clone(), 3), TestCodec, 8);
    assert!(matches!(framed.framed_read(), Err(FrameError::FrameTooLarge)));
    let mut wide = FramedRead::with_limit(MemSource::paced(data, 3), TestCodec, 10);
    assert_eq!(wide.framed_read().unwrap(), TestMsg::Unrecognised);
}

#[test]
fn decode_failure_is_surfaced() {
    let mut framed = FramedRead::new(MemSource::new(vec![255u8, 1]), TestCodec);
    match framed.framed_read() {
        Err(FrameError::Codec(e)) => assert_eq!(e.kind(), io::ErrorKind::InvalidData),
        other => panic!("expected a codec error, got {:?}", other),
    }
}

#[test]
fn partial_writes_are_completed() {
    let mut framed = FramedWrite::new(MemSink::paced(1), TestCodec);
    framed.framed_write(TestMsg::U16(1234)).unwrap();
    framed.framed_write(TestMsg::U8(12)).unwrap();
    assert_eq!(framed.get_ref().bytes().to_vec(), vec![2, 4, 210, 1, 12]);
}

#[test]
fn sink_that_takes_nothing_is_an_error() {
    let mut framed = FramedWrite::new(MemSink::paced(0), TestCodec);
    assert!(matches!(framed.framed_write(TestMsg::U8(1)), Err(FrameError::WriteZero)));
    assert!(framed.get_ref().bytes().is_empty());
}

#[test]
fn sink_fault_is_surfaced() {
    let mut framed = FramedWrite::new(BrokenSink { taken: Vec::new() }, TestCodec);
    match framed.framed_write(TestMsg::U16(1234)) {
        Err(FrameError::Io(fault)) => assert_eq!(fault, "full"),
        other => panic!("expected a fault of the sink, got {:?}", other),
    }
    assert_eq!(framed.get_ref().taken, vec![2, 4]);
}

#[test]
fn round_trip() {
    let mut tx = FramedWrite::new(MemSink::paced(2), TestCodec);
    tx.framed_write(TestMsg::U16(6543)).unwrap();
    let wire = tx.get_ref().bytes().to_vec();
    assert_eq!(wire, vec![2, 25, 143]);
    let mut rx = FramedRead::new(MemSource::paced(wire, 1), TestCodec);
    assert_eq!(rx.framed_read().unwrap(), TestMsg::U16(6543));
}

#[test]
fn split_halves_go_on_alone() {
    let pair = Framed::new(MemSource::new(vec![1u8, 128]), MemSink::new(), TestCodec, TestCodec);
    let (mut rx, mut tx) = pair.split();
    tx.framed_write(TestMsg::U8(3)).unwrap();
    assert_eq!(rx.framed_read().unwrap(), TestMsg::U8(128));
    assert_eq!(tx.get_ref().bytes().to_vec(), vec![1, 3]);
}

#[test]
fn memory_source_hands_out_in_order() {
    let mut src = MemSource::paced(vec![1u8, 2, 3], 2);
    assert_eq!(src.read_chunk(8).unwrap(), vec![1, 2]);
    assert_eq!(src.read_chunk(8).unwrap(), vec![3]);
    assert_eq!(src.read_chunk(8).unwrap(), Vec::<u8>::new());
    let mut sink = MemSink::paced(2);
    assert_eq!(sink.write(&[7, 8, 9]).unwrap(), 2);
    assert_eq!(sink.bytes().to_vec(), vec![7, 8]);
}

#[test]
fn length_prefixed_scenario() {
    let mut rx = FramedRead::new(MemSource::new(vec![1u8, 128]), LengthPrefixed);
    assert_eq!(rx.framed_read().unwrap(), Value::U8(128));
    let mut rx = FramedRead::new(MemSource::new(vec![2u8, 1, 128]), LengthPrefixed);
    assert_eq!(rx.framed_read().unwrap(), Value::U16(384));
    let mut tx = FramedWrite::new(MemSink::new(), LengthPrefixed);
    tx.framed_write(Value::U16(1234)).unwrap();
    assert_eq!(tx.get_ref().bytes().to_vec(), vec![2, 4, 210]);
}

#[test]
fn length_prefixed_unknown_length_is_skipped_whole() {
    let mut rx = FramedRead::new(MemSource::paced(vec![3u8, 1, 128, 0, 1, 7, 0, 1], 2), LengthPrefixed);
    assert_eq!(rx.framed_read().unwrap(), Value::Unrecognised);
    assert_eq!(rx.framed_read().unwrap(), Value::U8(7));
    assert_eq!(rx.framed_read().unwrap(), Value::Unrecognised);
    assert!(matches!(rx.framed_read(), Err(FrameError::UnexpectedEof)));
}

#[test]
fn length_prefixed_decode_leaves_the_next_frame() {
    let mut codec = LengthPrefixed;
    let mut buf = BytesMut::new();
    buf.extend_from_slice(&[2, 255, 255, 1]);
    assert_eq!(codec.decode(&mut buf).unwrap(), Some(Value::U16(65535)));
    assert_eq!(&buf[..], &[1]);
    assert_eq!(codec.decode(&mut buf).unwrap(), None);
    assert_eq!(&buf[..], &[1]);
    buf.clear();
    assert_eq!(codec.decode(&mut buf).unwrap(), None);
}

#[test]
fn length_prefixed_encode_appends() {
    let mut codec = LengthPrefixed;
    let mut buf = BytesMut::new();
    codec.encode(Value::U8(9), &mut buf).unwrap();
    codec.encode(Value::U16(256), &mut buf).unwrap();
    assert_eq!(&buf[..], &[1, 9, 2, 1, 0]);
    assert_eq!(codec.encode(Value::Unrecognised, &mut buf), Err(Unencodable));
    assert_eq!(&buf[..], &[1, 9, 2, 1, 0]);
}

#[test]
fn length_prefixed_round_trip_through_trickling_streams() {
    let mut tx = FramedWrite::new(MemSink::paced(1), LengthPrefixed);
    tx.framed_write(Value::U16(40000)).unwrap();
    tx.framed_write(Value::U8(0)).unwrap();
    let wire = tx.get_ref().bytes().to_vec();
    let mut rx = FramedRead::new(MemSource::paced(wire, 1), LengthPrefixed);
    assert_eq!(rx.framed_read().unwrap(), Value::U16(40000));
    assert_eq!(rx.framed_read().unwrap(), Value::U8(0));
}

#[test]
fn source_that_never_moves_ends_the_read() {
    let mut rx = FramedRead::new(MemSource::paced(vec![1u8, 2], 0), LengthPrefixed);
    assert!(matches!(rx.framed_read(), Err(FrameError::UnexpectedEof)));
}
