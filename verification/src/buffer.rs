//! The byte buffer of the `bytes` crate, as the verified code sees it.
//!
//! Nothing here is proved: each contract restates what the `bytes` crate
//! does, over [`buf_bytes`], the sequence of bytes that a buffer holds.
use vstd::prelude::*;
use bytes::{Buf, BytesMut};

verus! {

/// `bytes::BytesMut`, taken as it is: the verified code sees nothing inside
/// a buffer but what the contracts below say of [`buf_bytes`].
#[verifier::external_type_specification]
#[verifier::external_body]
pub struct ExBytesMut(bytes::BytesMut);

/// The bytes that a buffer holds, front first: what `&buf[..]` shows.
pub uninterp spec fn buf_bytes(buf: BytesMut) -> Seq<u8>;

/// The most bytes that the verified code ever keeps in one buffer.
///
/// `BytesMut` panics when the size of its backing allocation would
/// overflow. That size counts, beside the contents, the bytes already taken
/// from the front and the spare room, so the bound on the contents is kept
/// at a quarter of the address space: growing then overflows only where an
/// allocation of that size already exists, which no machine gives.
pub const MAX_BUFFERED: usize = usize::MAX / 4;

/// `BytesMut::with_capacity`: a buffer that holds no bytes. The capacity is
/// only reserved, and the crate panics on one that no allocation can have.
pub assume_specification[ BytesMut::with_capacity ](capacity: usize) -> (buf: BytesMut)
    requires
        capacity <= MAX_BUFFERED,
    ensures
        buf_bytes(buf) == Seq::<u8>::empty(),
;

/// `BytesMut::len`: the number of bytes held.
pub assume_specification[ BytesMut::len ](buf: &BytesMut) -> (n: usize)
    ensures
        n == buf_bytes(*buf).len(),
;

/// `BytesMut::extend_from_slice`: the bytes of `extend` are appended at the
/// back, in order; what was held before stays in front of them.
pub assume_specification[ BytesMut::extend_from_slice ](buf: &mut BytesMut, extend: &[u8])
    requires
        buf_bytes(*old(buf)).len() + extend@.len() <= MAX_BUFFERED,
    ensures
        buf_bytes(*final(buf)) == buf_bytes(*old(buf)) + extend@,
;

/// The `Deref` of `BytesMut` to a byte slice: the slice shows exactly the
/// bytes held.
#[verifier::external_body]
pub(crate) fn buf_slice(buf: &BytesMut) -> (s: &[u8])
    ensures
        s@ == buf_bytes(*buf),
{
    &buf[..]
}

/// `Buf::advance` on a `BytesMut`: the first `cnt` bytes leave the front and
/// the rest stays as it was. The crate panics when fewer are held.
#[verifier::external_body]
pub(crate) fn buf_advance(buf: &mut BytesMut, cnt: usize)
    requires
        cnt <= buf_bytes(*old(buf)).len(),
    ensures
        buf_bytes(*final(buf)) == buf_bytes(*old(buf)).skip(cnt as int),
{
    buf.advance(cnt)
}

} // verus!
