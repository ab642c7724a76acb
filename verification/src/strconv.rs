//! Trusted bridge between the library's byte content and std strings.
//!
//! Everything here only moves a string's bytes in or out unchanged; the
//! contracts speak of the UTF-8 encoding of the string's characters.

use vstd::prelude::*;
use vstd::string::StringSliceAdditionalSpecFns;
use vstd::utf8::*;

verus! {

/// Relies on `String::into_bytes`: it returns the string's byte content,
/// which is the UTF-8 encoding of its characters.
#[verifier::external_body]
pub(crate) fn string_into_bytes(s: String) -> (r: Vec<u8>)
    ensures
        r@ == encode_utf8(s@),
{
    s.into_bytes()
}

/// Relies on `String::capacity`: the capacity of a string's allocation,
/// in bytes, is at least its byte length.
#[verifier::external_body]
pub(crate) fn string_capacity(s: &String) -> (r: usize)
    ensures
        r >= encode_utf8(s@).len(),
{
    s.capacity()
}

/// Relies on `String::from_utf8`: on bytes that are a well-formed UTF-8
/// encoding it returns the string those bytes encode (the `unwrap` only
/// converts the result and cannot fail on such bytes).
#[verifier::external_body]
pub(crate) fn string_from_bytes(bytes: Vec<u8>) -> (r: String)
    requires
        valid_utf8(bytes@),
    ensures
        encode_utf8(r@) == bytes@,
{
    String::from_utf8(bytes).unwrap()
}

/// Relies on `core::str::from_utf8`: on bytes that are a well-formed
/// UTF-8 encoding it returns the string slice those bytes encode (the
/// `unwrap` only converts the result and cannot fail on such bytes).
#[verifier::external_body]
pub(crate) fn bytes_as_str(bytes: &[u8]) -> (r: &str)
    requires
        valid_utf8(bytes@),
    ensures
        r.spec_bytes() == bytes@,
{
    core::str::from_utf8(bytes).unwrap()
}

} // verus!
