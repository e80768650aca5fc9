//! The buffer in which a listener is handed its first data packet.

use bytes::BytesMut;
use vstd::prelude::*;

verus! {

/// `bytes::BytesMut`, a growable byte buffer.
#[verifier::external_type_specification]
#[verifier::external_body]
pub struct ExBytesMut(bytes::BytesMut);

/// The bytes that a `BytesMut` holds, in order.
pub uninterp spec fn held_bytes(buffer: BytesMut) -> Seq<u8>;

/// Calls `<BytesMut as From<&[u8]>>::from`, which copies the slice: the new
/// buffer holds exactly its bytes.
#[verifier::external_body]
pub(crate) fn copy_to_buffer(src: &[u8]) -> (r: BytesMut)
    ensures
        held_bytes(r) == src@,
{
    BytesMut::from(src)
}

} // verus!
