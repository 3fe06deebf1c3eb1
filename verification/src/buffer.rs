//! The accumulation buffer, a `bytes::BytesMut`, as the verifier sees it.
//!
//! Nothing in this module is proved: each contract restates what the `bytes`
//! crate documents of the operation it names.

use bytes::Buf;
use bytes::BytesMut;
use vstd::prelude::*;

verus! {

/// `bytes::BytesMut`, a growable buffer of bytes. Its inside is hidden from
/// the verifier: all that is said of a buffer is said through `contents`.
#[verifier::external_type_specification]
#[verifier::external_body]
pub struct ExBytesMut(bytes::BytesMut);

/// The bytes that a buffer holds, first to last: what `Deref` of the
/// `BytesMut` shows as a slice.
pub uninterp spec fn contents(buffer: BytesMut) -> Seq<u8>;

/// `BytesMut::with_capacity`: the new buffer holds no bytes, whatever the
/// capacity asked for.
pub assume_specification[ BytesMut::with_capacity ](capacity: usize) -> (buffer: BytesMut)
    ensures
        contents(buffer) == Seq::<u8>::empty(),
;

/// `BytesMut::len`: the number of bytes held.
pub assume_specification[ BytesMut::len ](buffer: &BytesMut) -> (len: usize)
    ensures
        len == contents(*buffer).len(),
;

/// `BytesMut::is_empty`: whether no byte is held.
pub assume_specification[ BytesMut::is_empty ](buffer: &BytesMut) -> (empty: bool)
    ensures
        empty <==> contents(*buffer).len() == 0,
;

/// `BytesMut::clear`: afterwards no byte is held.
pub assume_specification[ BytesMut::clear ](buffer: &mut BytesMut)
    ensures
        contents(*final(buffer)) == Seq::<u8>::empty(),
;

/// `BytesMut::split_to`: the first `at` bytes leave the buffer, in order, as
/// the buffer returned; the others stay, in order. The call panics where
/// `at` exceeds the length, so that is required.
pub assume_specification[ BytesMut::split_to ](buffer: &mut BytesMut, at: usize) -> (head: BytesMut)
    requires
        at <= contents(*old(buffer)).len(),
    ensures
        contents(head) == contents(*old(buffer)).take(at as int),
        contents(*final(buffer)) == contents(*old(buffer)).skip(at as int),
;

/// `BytesMut::extend_from_slice`: the bytes of `extend` are appended, in
/// order, behind those held. The call panics where the new length overflows
/// `usize`, so that is required not to happen. As vstd's contracts for `Vec`
/// do, this one leaves aside the allocator running out of memory.
pub assume_specification[ BytesMut::extend_from_slice ](buffer: &mut BytesMut, extend: &[u8])
    requires
        contents(*old(buffer)).len() + extend@.len() <= usize::MAX,
    ensures
        contents(*final(buffer)) == contents(*old(buffer)) + extend@,
;

/// `Buf::advance` on a `BytesMut`: the first `count` bytes are dropped and
/// the others stay, in order. The call panics where `count` exceeds the
/// length, so that is required.
#[verifier::external_body]
pub(crate) fn advance(buffer: &mut BytesMut, count: usize)
    requires
        count <= contents(*old(buffer)).len(),
    ensures
        contents(*final(buffer)) == contents(*old(buffer)).skip(count as int),
{
    buffer.advance(count)
}

/// `Deref` of a `BytesMut`: the slice borrowed holds the buffer's bytes.
#[verifier::external_body]
pub(crate) fn as_slice(buffer: &BytesMut) -> (slice: &[u8])
    ensures
        slice@ == contents(*buffer),
{
    buffer
}

} // verus!
