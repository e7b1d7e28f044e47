//! The caller-supplied growable byte buffer the decoder consumes from:
//! `bytes::BytesMut`, seen by the engine as the sequence of bytes it
//! currently holds. Only the few operations the decoder needs are
//! declared here; the buffer is filled by the caller.
use vstd::prelude::*;

use bytes::BytesMut;

verus! {

#[verifier::external_type_specification]
#[verifier::external_body]
pub struct ExBytesMut(BytesMut);

/// The bytes a `BytesMut` currently holds, front first.
pub uninterp spec fn bytes_view(b: BytesMut) -> Seq<u8>;

/// Relies on bytes::BytesMut::len: the number of bytes the buffer holds.
#[verifier::external_body]
pub(crate) fn buf_len(b: &BytesMut) -> (n: usize)
    ensures
        n == bytes_view(*b).len(),
{
    b.len()
}

/// Relies on the slice view of bytes::BytesMut (its Deref to a byte
/// slice): reads one byte without consuming it.
#[verifier::external_body]
pub(crate) fn buf_byte(b: &BytesMut, i: usize) -> (v: u8)
    requires
        i < bytes_view(*b).len(),
    ensures
        v == bytes_view(*b)[i as int],
{
    b[i]
}

/// Relies on bytes::Buf::advance for BytesMut: discards the first `n`
/// bytes of the buffer.
#[verifier::external_body]
pub(crate) fn buf_advance(b: &mut BytesMut, n: usize)
    requires
        n <= bytes_view(*old(b)).len(),
    ensures
        bytes_view(*final(b)) == bytes_view(*old(b)).skip(n as int),
{
    bytes::Buf::advance(b, n)
}

} // verus!
