//! `bytes::Bytes`, the shared byte buffer that frames travel in, as the
//! verified code sees it: a sequence of bytes.

use vstd::prelude::*;
use bytes::Bytes;

verus! {

#[verifier::external_type_specification]
#[verifier::external_body]
pub struct ExBytes(Bytes);

/// The bytes that a `Bytes` buffer holds.
pub uninterp spec fn bytes_view(b: Bytes) -> Seq<u8>;

/// `<Bytes as AsRef<[u8]>>::as_ref`: the buffer's bytes as a slice.
#[verifier::external_body]
pub(crate) fn bytes_as_slice(b: &Bytes) -> (r: &[u8])
    ensures
        r@ == bytes_view(*b),
{
    b.as_ref()
}

/// `Bytes::slice(start..)`: a buffer holding the bytes from `start` to the
/// end (the call panics when `start` is past the end).
#[verifier::external_body]
pub(crate) fn bytes_slice_from(b: &Bytes, start: usize) -> (r: Bytes)
    requires
        start <= bytes_view(*b).len(),
    ensures
        bytes_view(r) == bytes_view(*b).subrange(start as int, bytes_view(*b).len() as int),
{
    b.slice(start..)
}

/// `Bytes::new`: an empty buffer.
#[verifier::external_body]
pub(crate) fn bytes_new() -> (r: Bytes)
    ensures
        bytes_view(r) == Seq::<u8>::empty(),
{
    Bytes::new()
}

/// `<Bytes as From<Vec<u8>>>::from`: a buffer holding the vector's bytes.
#[verifier::external_body]
pub(crate) fn bytes_from_vec(v: Vec<u8>) -> (r: Bytes)
    ensures
        bytes_view(r) == v@,
{
    Bytes::from(v)
}

} // verus!
