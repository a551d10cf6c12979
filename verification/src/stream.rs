//! Byte streams as the framing layer needs them, and two that live in
//! memory.
use vstd::prelude::*;
use vstd::slice::{slice_subrange, slice_to_vec};

verus! {

/// A blocking source of bytes.
pub trait ByteSource {
    type Fault;

    /// The bytes that this source has yet to hand out, in order.
    spec fn pending(&self) -> Seq<u8>;

    /// Whether this source is one that never fails and hands out at least
    /// one byte for as long as any is pending.
    spec fn steady(&self) -> bool;

    /// Hands out the next bytes, at most `max` of them: they leave the front
    /// of `pending`. An empty chunk means that the stream has ended.
    fn read_chunk(&mut self, max: usize) -> (r: Result<Vec<u8>, Self::Fault>)
        ensures
            match r {
                Ok(chunk) => {
                    &&& chunk@.len() <= max
                    &&& chunk@.len() <= old(self).pending().len()
                    &&& chunk@ == old(self).pending().take(chunk@.len() as int)
                    &&& final(self).pending() == old(self).pending().skip(chunk@.len() as int)
                },
                Err(_) => true,
            },
            old(self).steady() ==> r is Ok && final(self).steady(),
            old(self).steady() && max > 0 && old(self).pending().len() > 0 ==> r->Ok_0@.len() > 0,
    ;
}

/// A blocking sink of bytes.
pub trait ByteSink {
    type Fault;

    /// The bytes that this sink has taken so far, in order.
    spec fn received(&self) -> Seq<u8>;

    /// Whether this sink is one that never fails and takes at least one
    /// byte of whatever it is offered.
    spec fn steady(&self) -> bool;

    /// Takes some bytes from the front of `data` and says how many. On a
    /// fault the sink has taken none of them.
    fn write(&mut self, data: &[u8]) -> (r: Result<usize, Self::Fault>)
        ensures
            match r {
                Ok(n) => {
                    &&& n <= data@.len()
                    &&& final(self).received() == old(self).received() + data@.take(n as int)
                },
                Err(_) => final(self).received() == old(self).received(),
            },
            old(self).steady() ==> r is Ok && final(self).steady(),
            old(self).steady() && data@.len() > 0 ==> r->Ok_0 > 0,
    ;

    /// Pushes what the sink holds back on to its medium. The bytes taken
    /// stay the same.
    fn flush(&mut self) -> (r: Result<(), Self::Fault>)
        ensures
            final(self).received() == old(self).received(),
            old(self).steady() ==> r is Ok && final(self).steady(),
    ;
}

/// The least of two sizes.
fn least(a: usize, b: usize) -> (m: usize)
    ensures
        m <= a,
        m <= b,
        m == a || m == b,
{
    if a < b {
        a
    } else {
        b
    }
}

/// A source that hands out the bytes of a vector, at most `step` of them at
/// a time, and never fails.
pub struct MemSource {
    data: Vec<u8>,
    pos: usize,
    step: usize,
}

impl MemSource {
    /// Whether the position lies within the data.
    pub closed spec fn wf(&self) -> bool {
        self.pos <= self.data@.len()
    }

    /// The most bytes that one read hands out.
    pub closed spec fn pace(&self) -> nat {
        self.step as nat
    }

    /// A source of `data` that hands out as much as each read asks for.
    pub fn new(data: Vec<u8>) -> (s: Self)
        ensures
            s.wf(),
            s.pending() == data@,
            s.pace() == usize::MAX,
    {
        let s = MemSource { data, pos: 0, step: usize::MAX };
        proof {
            assert(s.data@.skip(0) == s.data@);
        }
        s
    }

    /// A source of `data` that hands out at most `step` bytes per read.
    pub fn paced(data: Vec<u8>, step: usize) -> (s: Self)
        ensures
            s.wf(),
            s.pending() == data@,
            s.pace() == step,
    {
        let s = MemSource { data, pos: 0, step };
        proof {
            assert(s.data@.skip(0) == s.data@);
        }
        s
    }
}

impl ByteSource for MemSource {
    type Fault = ();

    closed spec fn pending(&self) -> Seq<u8> {
        if self.pos <= self.data@.len() {
            self.data@.skip(self.pos as int)
        } else {
            Seq::empty()
        }
    }

    open spec fn steady(&self) -> bool {
        self.wf() && self.pace() > 0
    }

    fn read_chunk(&mut self, max: usize) -> (r: Result<Vec<u8>, ()>)
        ensures
            r is Ok,
            final(self).pace() == old(self).pace(),
            old(self).wf() ==> final(self).wf(),
            old(self).wf() ==> r->Ok_0@.len() == vstd::math::min(
                vstd::math::min(max as int, old(self).pace() as int),
                old(self).pending().len() as int,
            ),
    {
        let total: usize = self.data.len();
        if self.pos > total {
            return Ok(Vec::new());
        }
        let n: usize = least(least(max, self.step), total - self.pos);
        let chunk = slice_to_vec(slice_subrange(self.data.as_slice(), self.pos, self.pos + n));
        proof {
            assert(chunk@ == self.data@.skip(self.pos as int).take(n as int));
            assert(self.data@.skip(self.pos + n) == self.data@.skip(self.pos as int).skip(n as int));
        }
        self.pos = self.pos + n;
        Ok(chunk)
    }
}

/// A sink that keeps what it takes in a vector, takes at most `step` bytes
/// per write, and never fails.
pub struct MemSink {
    taken: Vec<u8>,
    step: usize,
}

impl MemSink {
    /// The most bytes that one write takes.
    pub closed spec fn pace(&self) -> nat {
        self.step as nat
    }

    /// An empty sink that takes whatever each write offers.
    pub fn new() -> (s: Self)
        ensures
            s.received() == Seq::<u8>::empty(),
            s.pace() == usize::MAX,
    {
        MemSink { taken: Vec::new(), step: usize::MAX }
    }

    /// An empty sink that takes at most `step` bytes per write.
    pub fn paced(step: usize) -> (s: Self)
        ensures
            s.received() == Seq::<u8>::empty(),
            s.pace() == step,
    {
        MemSink { taken: Vec::new(), step }
    }

    /// The bytes taken so far.
    pub fn bytes(&self) -> (b: &[u8])
        ensures
            b@ == self.received(),
    {
        self.taken.as_slice()
    }
}

impl ByteSink for MemSink {
    type Fault = ();

    closed spec fn received(&self) -> Seq<u8> {
        self.taken@
    }

    open spec fn steady(&self) -> bool {
        self.pace() > 0
    }

    fn write(&mut self, data: &[u8]) -> (r: Result<usize, ()>)
        ensures
            r is Ok,
            r->Ok_0 == vstd::math::min(data@.len() as int, old(self).pace() as int),
            final(self).pace() == old(self).pace(),
    {
        let n: usize = least(data.len(), self.step);
        let ghost before = self.taken@;
        self.taken.extend_from_slice(slice_subrange(data, 0, n));
        proof {
            assert(self.taken@ == before + data@.take(n as int));
        }
        Ok(n)
    }

    fn flush(&mut self) -> (r: Result<(), ()>)
        ensures
            r is Ok,
            *final(self) == *old(self),
    {
        Ok(())
    }
}

} // verus!
