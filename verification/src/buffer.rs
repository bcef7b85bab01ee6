//! What the library relies on of the byte buffers of the `bytes` crate.

use bytes::{Bytes, BytesMut};
use vstd::prelude::*;

verus! {

/// The growable byte buffer `bytes::BytesMut`.
#[verifier::external_type_specification]
#[verifier::external_body]
pub struct ExBytesMut(bytes::BytesMut);

/// The shared, immutable byte string `bytes::Bytes`.
#[verifier::external_type_specification]
#[verifier::external_body]
pub struct ExBytes(bytes::Bytes);

/// The bytes that a `BytesMut` holds.
pub uninterp spec fn buffered(buffer: bytes::BytesMut) -> Seq<u8>;

/// The bytes that a `Bytes` holds.
pub uninterp spec fn frozen(bytes: bytes::Bytes) -> Seq<u8>;

/// The most bytes that may be held in a buffer.
///
/// A buffer grows by doubling and may leave room in front of its bytes. With an eighth of the
/// largest allocation there is, what it asks for can never overflow.
pub open spec fn buffer_limit() -> int {
    isize::MAX as int / 8
}

/// `BytesMut::new`: an empty buffer.
pub assume_specification[ bytes::BytesMut::new ]() -> (buffer: BytesMut)
    ensures
        buffered(buffer) == Seq::<u8>::empty(),
;

/// `BytesMut::len`: the number of bytes held.
pub assume_specification[ bytes::BytesMut::len ](buffer: &BytesMut) -> (len: usize)
    ensures
        len == buffered(*buffer).len(),
;

/// `BytesMut::extend_from_slice`: appends the slice. It panics if the capacity overflows, which
/// the limit on what is held rules out.
pub assume_specification[ bytes::BytesMut::extend_from_slice ](
    buffer: &mut BytesMut,
    extend: &[u8],
)
    requires
        buffered(*old(buffer)).len() + extend@.len() <= buffer_limit(),
    ensures
        buffered(*final(buffer)) == buffered(*old(buffer)) + extend@,
;

/// `BytesMut::split`: hands out all bytes held and leaves the buffer empty.
pub assume_specification[ bytes::BytesMut::split ](buffer: &mut BytesMut) -> (taken: BytesMut)
    ensures
        buffered(taken) == buffered(*old(buffer)),
        buffered(*final(buffer)) == Seq::<u8>::empty(),
;

/// `BytesMut::freeze`: the same bytes, immutable.
pub assume_specification[ bytes::BytesMut::freeze ](buffer: BytesMut) -> (bytes: Bytes)
    ensures
        frozen(bytes) == buffered(buffer),
;

} // verus!
