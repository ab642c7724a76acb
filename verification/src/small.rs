//! The compact string variant: a smaller inline threshold, and a heap
//! shape that is always an exact fit — there is no growth interface, so
//! no capacity needs tracking. Meant for dense storage of many mostly
//! immutable short strings.

use vstd::prelude::*;
use vstd::string::StringSliceAdditionalSpecFns;
use vstd::utf8::*;

use crate::layout;
use crate::layout::{IS_INLINE, LEN_MASK, MAX_CAPACITY};
use crate::strconv;
use crate::validate;
use crate::FromUtf8Error;

verus! {

/// Inline capacity of `SmallString`: one byte shy of the two-word heap
/// shape of the modelled 64-bit layout.
pub const INLINE_CAPACITY: usize = 15;

/// The inline shape, as it is handed out by ownership transfer: a full
/// fixed buffer and the logical length, without the discriminant bit.
#[derive(Debug)]
pub struct Inline {
    pub data: Vec<u8>,
    pub len: u8,
}

/// The heap shape: an owned buffer sized exactly to the content.
#[derive(Debug)]
pub struct Heap {
    pub data: Vec<u8>,
}

#[derive(Debug)]
enum InlineOrHeap {
    Inline(Inline),
    Heap(Heap),
}

/// A read-optimized string value that stores short content inline and
/// longer content in one exact-fit heap allocation.
#[derive(Debug)]
pub struct SmallString {
    repr: InlineOrHeap,
}

impl View for Inline {
    type V = Seq<u8>;

    /// The logical content: the prefix of the buffer selected by the
    /// length bits of the tag byte.
    open spec fn view(&self) -> Seq<u8> {
        let l = (self.len & LEN_MASK) as int;
        if l <= self.data@.len() {
            self.data@.take(l)
        } else {
            self.data@
        }
    }
}

impl Inline {
    /// Transfer-form well-formedness: a full buffer, a length within the
    /// inline capacity (hence no discriminant bit), well-formed content.
    pub open spec fn wf(&self) -> bool {
        &&& self.data@.len() == INLINE_CAPACITY
        &&& self.len <= INLINE_CAPACITY
        &&& valid_utf8(self@)
    }
}

impl View for Heap {
    type V = Seq<u8>;

    open spec fn view(&self) -> Seq<u8> {
        self.data@
    }
}

impl Heap {
    /// Well-formed: the exact-fit length stays clear of the discriminant
    /// bit, and the content is well formed.
    pub open spec fn wf(&self) -> bool {
        &&& self.data@.len() < MAX_CAPACITY
        &&& valid_utf8(self@)
    }
}

impl View for SmallString {
    type V = Seq<u8>;

    /// The logical byte content, whichever shape is live.
    closed spec fn view(&self) -> Seq<u8> {
        match self.repr {
            InlineOrHeap::Inline(i) => i@,
            InlineOrHeap::Heap(h) => h@,
        }
    }
}

impl SmallString {
    /// True when the inline shape is live.
    pub closed spec fn spec_is_inline(&self) -> bool {
        self.repr is Inline
    }

    /// Well-formedness, established by every constructor: the live shape
    /// is internally consistent (installed inline shapes carry the
    /// discriminant bit), the heap length stays under `MAX_CAPACITY`,
    /// and the content is a well-formed UTF-8 encoding.
    pub closed spec fn wf(&self) -> bool {
        match self.repr {
            InlineOrHeap::Inline(i) => {
                &&& i.data@.len() == INLINE_CAPACITY
                &&& (i.len & IS_INLINE) != 0
                &&& (i.len & LEN_MASK) <= INLINE_CAPACITY
                &&& valid_utf8(i@)
            },
            InlineOrHeap::Heap(h) => h.wf(),
        }
    }

    /// What well-formedness guarantees about the observable model.
    pub proof fn lemma_wf(&self)
        requires
            self.wf(),
        ensures
            valid_utf8(self@),
            self@.len() < MAX_CAPACITY,
            self.spec_is_inline() ==> self@.len() <= INLINE_CAPACITY,
    {
    }

    /// Builds a value owning `data` as its content: inline when it fits,
    /// else an exact-fit heap shape.
    fn from_bytes(data: Vec<u8>) -> (r: SmallString)
        ensures
            r@ == data@,
            r.spec_is_inline() <==> data@.len() <= INLINE_CAPACITY,
            valid_utf8(data@) && data@.len() < MAX_CAPACITY ==> r.wf(),
    {
        let l = data.len();
        if l <= INLINE_CAPACITY {
            let ghost content = data@;
            let mut buf = data;
            while buf.len() < INLINE_CAPACITY
                invariant
                    l <= buf@.len() <= INLINE_CAPACITY,
                    buf@.take(l as int) == content,
                decreases INLINE_CAPACITY - buf@.len(),
            {
                buf.push(0);
                proof {
                    assert(buf@.take(l as int) =~= content);
                }
            }
            let tag = layout::set_logical_length(l as u8);
            SmallString { repr: InlineOrHeap::Inline(Inline { data: buf, len: tag }) }
        } else {
            SmallString { repr: InlineOrHeap::Heap(Heap { data }) }
        }
    }

    /// Builds a value from a string slice: entirely inline when the
    /// content fits the inline buffer, else one exact-fit allocation.
    pub fn new(s: &str) -> (r: SmallString)
        requires
            s.spec_bytes().len() < MAX_CAPACITY,
        ensures
            r.wf(),
            r@ == s.spec_bytes(),
            r.spec_is_inline() <==> s.spec_bytes().len() <= INLINE_CAPACITY,
    {
        proof {
            encode_utf8_valid_utf8(s@);
        }
        Self::from_bytes(vstd::slice::slice_to_vec(s.as_bytes()))
    }

    /// Builds a value from a string slice; the same as `new`.
    pub fn from(s: &str) -> (r: SmallString)
        requires
            s.spec_bytes().len() < MAX_CAPACITY,
        ensures
            r.wf(),
            r@ == s.spec_bytes(),
            r.spec_is_inline() <==> s.spec_bytes().len() <= INLINE_CAPACITY,
    {
        Self::new(s)
    }

    /// Builds a value from an owned string, taking over its bytes; long
    /// content keeps one exact-fit buffer, short content moves inline.
    pub fn from_string(s: String) -> (r: SmallString)
        requires
            encode_utf8(s@).len() < MAX_CAPACITY,
        ensures
            r.wf(),
            r@ == encode_utf8(s@),
            r.spec_is_inline() <==> encode_utf8(s@).len() <= INLINE_CAPACITY,
    {
        proof {
            encode_utf8_valid_utf8(s@);
        }
        Self::from_bytes(strconv::string_into_bytes(s))
    }

    /// Validates `bytes` and builds a value owning them; bytes that are
    /// not a well-formed UTF-8 encoding come back in the error, together
    /// with the position of the first malformed scalar.
    pub fn from_utf8(bytes: Vec<u8>) -> (r: Result<SmallString, FromUtf8Error>)
        requires
            bytes@.len() < MAX_CAPACITY,
        ensures
            (r is Ok) <==> valid_utf8(bytes@),
            r matches Ok(v) ==> v.wf() && v@ == bytes@ && (v.spec_is_inline() <==> bytes@.len()
                <= INLINE_CAPACITY),
            r matches Err(e) ==> e.wf() && e.spec_bytes() == bytes@,
    {
        match validate::validate_utf8(bytes.as_slice()) {
            Ok(()) => Ok(Self::from_bytes(bytes)),
            Err(pos) => Err(FromUtf8Error::new(bytes, pos)),
        }
    }

    /// Reads the discriminant: `true` exactly when the inline shape is
    /// live.
    pub fn is_inline(&self) -> (r: bool)
        requires
            self.wf(),
        ensures
            r == self.spec_is_inline(),
    {
        match &self.repr {
            InlineOrHeap::Inline(i) => layout::is_inline_tag(i.len),
            InlineOrHeap::Heap(_) => false,
        }
    }

    /// The content length in bytes.
    pub fn len(&self) -> (r: usize)
        requires
            self.wf(),
        ensures
            r == self@.len(),
    {
        match &self.repr {
            InlineOrHeap::Inline(i) => layout::logical_length(i.len) as usize,
            InlineOrHeap::Heap(h) => h.data.len(),
        }
    }

    /// The content as a byte slice.
    pub fn as_bytes(&self) -> (r: &[u8])
        requires
            self.wf(),
        ensures
            r@ == self@,
    {
        match &self.repr {
            InlineOrHeap::Inline(i) => {
                let l = layout::logical_length(i.len) as usize;
                let r = vstd::slice::slice_subrange(i.data.as_slice(), 0, l);
                proof {
                    assert(r@ =~= i@);
                }
                r
            },
            InlineOrHeap::Heap(h) => h.data.as_slice(),
        }
    }

    /// The content as a string slice.
    pub fn as_str(&self) -> (r: &str)
        requires
            self.wf(),
        ensures
            r.spec_bytes() == self@,
            r@ == decode_utf8(self@),
    {
        let b = self.as_bytes();
        let r = strconv::bytes_as_str(b);
        proof {
            encode_utf8_decode_utf8(r@);
        }
        r
    }

    /// Consumes the value into an owned string with the same content.
    pub fn into_string(self) -> (r: String)
        requires
            self.wf(),
        ensures
            encode_utf8(r@) == self@,
            r@ == decode_utf8(self@),
    {
        let r = match self.repr {
            InlineOrHeap::Inline(i) => {
                let l = layout::logical_length(i.len) as usize;
                let mut data = i.data;
                data.truncate(l);
                proof {
                    assert(data@ =~= i@);
                }
                strconv::string_from_bytes(data)
            },
            InlineOrHeap::Heap(h) => strconv::string_from_bytes(h.data),
        };
        proof {
            encode_utf8_decode_utf8(r@);
        }
        r
    }

    /// Consumes the value into its content bytes.
    pub fn into_bytes(self) -> (r: Vec<u8>)
        requires
            self.wf(),
        ensures
            r@ == self@,
    {
        match self.repr {
            InlineOrHeap::Inline(i) => {
                let l = layout::logical_length(i.len) as usize;
                let mut data = i.data;
                data.truncate(l);
                proof {
                    assert(data@ =~= i@);
                }
                data
            },
            InlineOrHeap::Heap(h) => h.data,
        }
    }

    /// Consumes a heap-resident value into its raw heap shape; the value
    /// is moved out, so its own release never runs — the caller owns the
    /// parts. Calling this on an inline value is a fatal misuse.
    pub fn to_heap(self) -> (r: Heap)
        requires
            self.wf(),
            !self.spec_is_inline(),
        ensures
            r.wf(),
            r@ == self@,
    {
        match self.repr {
            InlineOrHeap::Heap(h) => h,
            InlineOrHeap::Inline(_) => vstd::pervasive::unreached(),
        }
    }

    /// The exact inverse of `to_heap`: adopts a raw heap shape without
    /// copying. Well-formedness of the shape keeps the length word clear
    /// of the discriminant bit.
    pub fn from_heap(heap: Heap) -> (r: SmallString)
        requires
            heap.wf(),
        ensures
            r.wf(),
            r@ == heap@,
            !r.spec_is_inline(),
    {
        SmallString { repr: InlineOrHeap::Heap(heap) }
    }

    /// Consumes an inline value into its raw inline shape, with the
    /// discriminant bit cleared out of the length byte. Calling this on a
    /// heap-resident value is a fatal misuse.
    pub fn to_inline(self) -> (r: Inline)
        requires
            self.wf(),
            self.spec_is_inline(),
        ensures
            r.wf(),
            r@ == self@,
            r.len <= INLINE_CAPACITY,
    {
        match self.repr {
            InlineOrHeap::Inline(i) => {
                let len = layout::logical_length(i.len);
                proof {
                    let t = i.len;
                    assert((len & LEN_MASK) == len) by (bit_vector)
                        requires
                            len == (t & 0x7f),
                    ;
                }
                Inline { data: i.data, len }
            },
            InlineOrHeap::Heap(_) => vstd::pervasive::unreached(),
        }
    }

    /// The exact inverse of `to_inline`: adopts a raw inline shape,
    /// setting the discriminant bit in the length byte.
    pub fn from_inline(inline: Inline) -> (r: SmallString)
        requires
            inline.wf(),
        ensures
            r.wf(),
            r@ == inline@,
            r.spec_is_inline(),
    {
        let tag = layout::set_logical_length(inline.len);
        proof {
            let l = inline.len;
            assert(l <= 0x0f ==> (l & 0x7f) == l) by (bit_vector);
        }
        SmallString { repr: InlineOrHeap::Inline(Inline { data: inline.data, len: tag }) }
    }

    /// The content bytes of any value, well formed or not: what the
    /// logical view selects.
    fn view_bytes(&self) -> (r: &[u8])
        ensures
            r@ == self@,
    {
        match &self.repr {
            InlineOrHeap::Inline(i) => {
                let l = layout::logical_length(i.len) as usize;
                let dl = i.data.len();
                let m = if l <= dl {
                    l
                } else {
                    dl
                };
                let r = vstd::slice::slice_subrange(i.data.as_slice(), 0, m);
                proof {
                    assert(r@ =~= i@);
                }
                r
            },
            InlineOrHeap::Heap(h) => h.data.as_slice(),
        }
    }
}

impl Clone for SmallString {
    /// An inline value clones by a plain copy of its shape; a
    /// heap-resident value clones into a fresh exact-fit buffer, never
    /// sharing the old one. The shape is preserved either way, and the
    /// clone owns its own storage.
    fn clone(&self) -> (r: SmallString)
        ensures
            self.wf() ==> {
                &&& r.wf()
                &&& r@ == self@
                &&& r.spec_is_inline() == self.spec_is_inline()
            },
    {
        match &self.repr {
            InlineOrHeap::Inline(i) => SmallString {
                repr: InlineOrHeap::Inline(
                    Inline { data: vstd::slice::slice_to_vec(i.data.as_slice()), len: i.len },
                ),
            },
            InlineOrHeap::Heap(h) => SmallString {
                repr: InlineOrHeap::Heap(
                    Heap { data: vstd::slice::slice_to_vec(h.data.as_slice()) },
                ),
            },
        }
    }
}

impl vstd::std_specs::cmp::PartialEqSpecImpl for SmallString {
    open spec fn obeys_eq_spec() -> bool {
        true
    }

    open spec fn eq_spec(&self, other: &SmallString) -> bool {
        self@ == other@
    }
}

impl PartialEq for SmallString {
    /// Content equality: two values are equal when their bytes are,
    /// whatever their shapes.
    fn eq(&self, other: &SmallString) -> (r: bool) {
        crate::bytes_eq(self.view_bytes(), other.view_bytes())
    }
}

impl Eq for SmallString {

}

impl vstd::std_specs::cmp::PartialEqSpecImpl<&str> for SmallString {
    open spec fn obeys_eq_spec() -> bool {
        true
    }

    open spec fn eq_spec(&self, other: &&str) -> bool {
        self@ == other.spec_bytes()
    }
}

impl PartialEq<&str> for SmallString {
    /// Content equality against a string slice.
    fn eq(&self, other: &&str) -> (r: bool) {
        crate::bytes_eq(self.view_bytes(), other.as_bytes())
    }
}

/// Ownership-transfer round trip for the heap shape of the compact
/// variant: a value rebuilt by `from_heap` from the parts that `to_heap`
/// handed out is indistinguishable from the source.
pub proof fn lemma_heap_round_trip(s: SmallString, h: Heap, r: SmallString)
    requires
        s.wf(),
        !s.spec_is_inline(),
        h.wf(),
        h@ == s@,
        r.wf(),
        r@ == h@,
        !r.spec_is_inline(),
    ensures
        r@ == s@,
        r.spec_is_inline() == s.spec_is_inline(),
{
}

/// Ownership-transfer round trip for the inline shape of the compact
/// variant: a value rebuilt by `from_inline` from the parts that
/// `to_inline` handed out is indistinguishable from the source.
pub proof fn lemma_inline_round_trip(s: SmallString, i: Inline, r: SmallString)
    requires
        s.wf(),
        s.spec_is_inline(),
        i.wf(),
        i@ == s@,
        r.wf(),
        r@ == i@,
        r.spec_is_inline(),
    ensures
        r@ == s@,
        r.spec_is_inline() == s.spec_is_inline(),
{
}

} // verus!
