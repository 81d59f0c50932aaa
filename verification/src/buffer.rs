//! The carry buffer of the stream segmenter, held in a `bytes::BytesMut`.
//!
//! Everything in this module is trusted: the contracts restate what the
//! `bytes` crate documents for each method.

use bytes::BytesMut;
use vstd::prelude::*;

verus! {

/// `bytes::BytesMut`, known here by `buffer_bytes` alone.
#[verifier::external_type_specification]
#[verifier::external_body]
pub struct ExBytesMut(BytesMut);

/// The bytes that a buffer currently holds, in order.
pub uninterp spec fn buffer_bytes(buf: BytesMut) -> Seq<u8>;

/// `BytesMut::with_capacity`: a buffer that holds no bytes, whatever room it
/// was given. The room is allocated as a `Vec`, which panics on a capacity
/// over `isize::MAX`, so that case is excluded.
#[verifier::external_body]
pub(crate) fn buffer_with_capacity(capacity: usize) -> (buf: BytesMut)
    requires
        capacity <= isize::MAX,
    ensures
        buffer_bytes(buf) == Seq::<u8>::empty(),
{
    BytesMut::with_capacity(capacity)
}

/// `BytesMut::len`: the number of bytes held.
#[verifier::external_body]
pub(crate) fn buffer_len(buf: &BytesMut) -> (n: usize)
    ensures
        n == buffer_bytes(*buf).len(),
{
    buf.len()
}

/// `BytesMut::extend_from_slice`: appends the given bytes. The crate grows
/// the buffer as a `Vec`, which panics once its capacity passes `isize::MAX`,
/// so a new length over that is excluded.
#[verifier::external_body]
pub(crate) fn buffer_extend(buf: &mut BytesMut, bytes: &[u8])
    requires
        buffer_bytes(*old(buf)).len() + bytes@.len() <= isize::MAX,
    ensures
        buffer_bytes(*final(buf)) == buffer_bytes(*old(buf)) + bytes@,
{
    buf.extend_from_slice(bytes)
}

/// `BytesMut::split_to`: hands out the first `at` bytes and keeps the rest.
/// The crate panics when `at` exceeds the length, so that case is excluded.
#[verifier::external_body]
pub(crate) fn buffer_split_to(buf: &mut BytesMut, at: usize) -> (front: Vec<u8>)
    requires
        at <= buffer_bytes(*old(buf)).len(),
    ensures
        front@ == buffer_bytes(*old(buf)).subrange(0, at as int),
        buffer_bytes(*final(buf)) == buffer_bytes(*old(buf)).subrange(
            at as int,
            buffer_bytes(*old(buf)).len() as int,
        ),
{
    buf.split_to(at).to_vec()
}

} // verus!
