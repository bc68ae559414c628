//! The reference-counted buffer of the `bytes` crate, as the library sees it:
//! an opaque value whose contents are a sequence of bytes.
use bytes::Bytes;
use vstd::prelude::*;
use vstd::utf8::encode_utf8;

verus! {

#[verifier::external_type_specification]
#[verifier::external_body]
pub struct ExBytes(bytes::Bytes);

/// The bytes that a `Bytes` holds.
pub uninterp spec fn bytes_view(b: bytes::Bytes) -> Seq<u8>;

/// Relies on `Bytes::len`: the number of bytes held.
#[verifier::external_body]
pub(crate) fn bytes_len(b: &Bytes) -> (r: usize)
    ensures
        r == bytes_view(*b).len(),
{
    b.len()
}

/// Relies on `Bytes`'s `AsRef<[u8]>`: a view of the bytes held.
#[verifier::external_body]
pub(crate) fn bytes_as_slice(b: &Bytes) -> (r: &[u8])
    ensures
        r@ == bytes_view(*b),
{
    b.as_ref()
}

/// Relies on `Bytes::slice`: a buffer that holds `start..end` of `b`'s
/// bytes. It panics unless `start <= end <= b.len()`.
#[verifier::external_body]
pub(crate) fn bytes_slice(b: &Bytes, start: usize, end: usize) -> (r: Bytes)
    requires
        start <= end <= bytes_view(*b).len(),
    ensures
        bytes_view(r) == bytes_view(*b).subrange(start as int, end as int),
{
    b.slice(start..end)
}

/// Relies on `Bytes`'s `Clone`: another handle on the same bytes.
pub assume_specification[ <bytes::Bytes as Clone>::clone ](b: &bytes::Bytes) -> (r: bytes::Bytes)
    ensures
        bytes_view(r) == bytes_view(*b),
;

/// Relies on `Bytes::copy_from_slice`: a new buffer holding a copy of `data`.
#[verifier::external_body]
pub(crate) fn bytes_copy_from_slice(data: &[u8]) -> (r: Bytes)
    ensures
        bytes_view(r) == data@,
{
    Bytes::copy_from_slice(data)
}

/// Relies on `Bytes`'s `From<String>`: a buffer holding the text's UTF-8
/// bytes.
#[verifier::external_body]
pub(crate) fn bytes_from_string(s: String) -> (r: Bytes)
    ensures
        bytes_view(r) == encode_utf8(s@),
{
    Bytes::from(s)
}

} // verus!
