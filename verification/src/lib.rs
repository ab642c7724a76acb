//! Strings with a small-string optimization, modelled and verified.
//!
//! A string value is one of two shapes: an `Inline` shape that keeps short
//! content in a fixed buffer together with a bit-packed length byte, and a
//! `Heap` shape that owns a growable buffer. One discriminant bit tells the
//! two shapes apart; the capacity of the heap shape is bounded so that the
//! bit stays unambiguous. All content is valid UTF-8 at every observable
//! boundary.

use vstd::prelude::*;
use vstd::utf8::*;

pub mod istring;
pub mod layout;
pub mod small;
mod strconv;
pub mod validate;

pub use istring::IString;
pub use small::SmallString;

verus! {

/// The position information of a failed UTF-8 validation.
#[derive(Clone, Copy, Debug, PartialEq, Eq, Structural)]
pub struct Utf8Error {
    valid_up_to: usize,
}

impl Utf8Error {
    /// The length of the longest well-formed prefix that ends on a scalar
    /// boundary; the first malformed scalar starts there.
    pub closed spec fn spec_valid_up_to(&self) -> usize {
        self.valid_up_to
    }

    pub fn valid_up_to(&self) -> (r: usize)
        ensures
            r == self.spec_valid_up_to(),
    {
        self.valid_up_to
    }
}

/// The error of building a string value from bytes that are not a
/// well-formed UTF-8 encoding: carries the original bytes, so the caller
/// can salvage them, and the position of the first malformed scalar.
#[derive(Debug)]
pub struct FromUtf8Error {
    bytes: Vec<u8>,
    error: Utf8Error,
}

impl FromUtf8Error {
    /// The carried bytes.
    pub closed spec fn spec_bytes(&self) -> Seq<u8> {
        self.bytes@
    }

    /// The carried position information.
    pub closed spec fn spec_error(&self) -> Utf8Error {
        self.error
    }

    /// Well-formed: the carried bytes are not valid UTF-8, and the carried
    /// position marks the start of the first malformed scalar.
    pub open spec fn wf(&self) -> bool {
        &&& !valid_utf8(self.spec_bytes())
        &&& self.spec_error().spec_valid_up_to() < self.spec_bytes().len()
        &&& valid_utf8(self.spec_bytes().subrange(0, self.spec_error().spec_valid_up_to() as int))
        &&& !valid_first_scalar(
            self.spec_bytes().subrange(
                self.spec_error().spec_valid_up_to() as int,
                self.spec_bytes().len() as int,
            ),
        )
    }

    pub(crate) fn new(bytes: Vec<u8>, valid_up_to: usize) -> (r: FromUtf8Error)
        requires
            !valid_utf8(bytes@),
            valid_up_to < bytes@.len(),
            valid_utf8(bytes@.subrange(0, valid_up_to as int)),
            !valid_first_scalar(bytes@.subrange(valid_up_to as int, bytes@.len() as int)),
        ensures
            r.wf(),
            r.spec_bytes() == bytes@,
            r.spec_error().spec_valid_up_to() == valid_up_to,
    {
        FromUtf8Error { bytes, error: Utf8Error { valid_up_to } }
    }

    /// A view of the bytes that failed validation.
    pub fn as_bytes(&self) -> (r: &[u8])
        ensures
            r@ == self.spec_bytes(),
    {
        self.bytes.as_slice()
    }

    /// Hands the failed bytes back to the caller.
    pub fn into_bytes(self) -> (r: Vec<u8>)
        ensures
            r@ == self.spec_bytes(),
    {
        self.bytes
    }

    /// The position information of the validation failure.
    pub fn utf8_error(&self) -> (r: Utf8Error)
        ensures
            r == self.spec_error(),
    {
        self.error
    }
}

/// Compares two byte slices for equality of content.
pub(crate) fn bytes_eq(a: &[u8], b: &[u8]) -> (r: bool)
    ensures
        r == (a@ == b@),
{
    if a.len() != b.len() {
        return false;
    }
    let n = a.len();
    let mut i: usize = 0;
    while i < n
        invariant
            i <= n,
            n == a@.len(),
            a@.len() == b@.len(),
            forall|k: int| 0 <= k < i ==> a@[k] == b@[k],
        decreases n - i,
    {
        if *vstd::slice::slice_index_get(a, i) != *vstd::slice::slice_index_get(b, i) {
            proof {
                assert(a@[i as int] != b@[i as int]);
            }
            return false;
        }
        i = i + 1;
    }
    proof {
        assert(a@ =~= b@);
    }
    true
}

} // verus!
