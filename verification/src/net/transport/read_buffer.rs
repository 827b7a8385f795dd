//! The buffer that a read from the socket fills, as the engine sees it.
//!
//! The buffer is a `bytes::BytesMut`. Nothing of it is verified here: what
//! this module states of it is taken from its documentation.

use bytes::BytesMut;
use vstd::prelude::*;

verus! {

/// `bytes::BytesMut`, of which nothing is seen here but what the functions
/// below state.
#[verifier::external_type_specification]
#[verifier::external_body]
pub struct ExBytesMut(bytes::BytesMut);

/// The bytes that a read buffer holds, first to last.
pub uninterp spec fn bytes_held(buffer: BytesMut) -> Seq<u8>;

/// Calls `BytesMut::with_capacity`. Taken on trust: the buffer that comes
/// back holds no bytes. The capacity must be one that an allocation can
/// have.
#[verifier::external_body]
pub(crate) fn with_capacity(capacity: usize) -> (buffer: BytesMut)
    requires
        capacity <= isize::MAX,
    ensures
        bytes_held(buffer) == Seq::<u8>::empty(),
{
    BytesMut::with_capacity(capacity)
}

/// Calls `BytesMut::deref`. Taken on trust: the slice that comes back is the
/// bytes that the buffer holds.
#[verifier::external_body]
pub(crate) fn as_slice(buffer: &BytesMut) -> (bytes: &[u8])
    ensures
        bytes@ == bytes_held(*buffer),
{
    core::ops::Deref::deref(buffer)
}

} // verus!
