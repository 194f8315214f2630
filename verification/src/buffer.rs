//! The byte buffer that call inputs and outputs travel in: `alloy_primitives::Bytes`.

use alloy_primitives::Bytes;
use vstd::prelude::*;

verus! {

/// Declares `alloy_primitives::Bytes`, an immutable byte buffer with shared ownership.
#[verifier::external_type_specification]
#[verifier::external_body]
pub struct ExBytes(alloy_primitives::Bytes);

/// The bytes that a buffer holds.
pub uninterp spec fn contents(buffer: Bytes) -> Seq<u8>;

/// `Bytes::new` makes an empty buffer.
pub assume_specification[ alloy_primitives::Bytes::new ]() -> (buffer: alloy_primitives::Bytes)
    ensures
        contents(buffer) == Seq::<u8>::empty(),
;

/// `Bytes::copy_from_slice` makes a buffer that holds a copy of the slice.
pub assume_specification[ alloy_primitives::Bytes::copy_from_slice ](data: &[u8]) -> (buffer: alloy_primitives::Bytes)
    ensures
        contents(buffer) == data@,
;

/// `Bytes::clone` makes a second handle on the same bytes.
pub assume_specification[ <alloy_primitives::Bytes as Clone>::clone ](buffer: &alloy_primitives::Bytes) -> (copy: alloy_primitives::Bytes)
    ensures
        contents(copy) == contents(*buffer),
;

/// Calls the conversion from `Vec<u8>` to `Bytes`, which keeps the vector's bytes.
#[verifier::external_body]
pub(crate) fn buffer_from_vec(data: Vec<u8>) -> (buffer: Bytes)
    ensures
        contents(buffer) == data@,
{
    Bytes::from(data)
}

/// Calls `Bytes::as_ref`, which borrows the bytes that the buffer holds.
#[verifier::external_body]
pub(crate) fn buffer_as_slice(buffer: &Bytes) -> (data: &[u8])
    ensures
        data@ == contents(*buffer),
{
    buffer.as_ref()
}

} // verus!
