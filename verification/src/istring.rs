//! The growable string with a small-string optimization.
//!
//! An `IString` is a tagged union of two shapes. The inline shape keeps up
//! to `INLINE_CAPACITY` bytes in a fixed buffer, with the logical length
//! bit-packed into a tag byte whose high bit is the discriminant. The heap
//! shape owns a growable buffer whose capacity stays under
//! `MAX_CAPACITY`, so the byte it shares with the tag never shows the
//! discriminant bit. Content is always a well-formed UTF-8 encoding.

use vstd::prelude::*;
use vstd::string::StringSliceAdditionalSpecFns;
use vstd::utf8::*;

use crate::layout;
use crate::layout::{IS_INLINE, LEN_MASK, MAX_CAPACITY};
use crate::strconv;
use crate::validate;
use crate::FromUtf8Error;

verus! {

/// Inline capacity of `IString`: one byte shy of the three-word heap
/// shape of the modelled 64-bit layout.
pub const INLINE_CAPACITY: usize = 23;

/// The inline shape, as it is handed out by ownership transfer: a full
/// fixed buffer and the logical length, without the discriminant bit.
#[derive(Debug)]
pub struct Inline {
    pub data: Vec<u8>,
    pub len: u8,
}

/// The heap shape: an owned buffer holding exactly the content, and the
/// capacity of the allocation the shape stands for.
#[derive(Debug)]
pub struct Heap {
    pub data: Vec<u8>,
    pub cap: usize,
}

/// The tagged union of the two shapes.
#[derive(Debug)]
pub enum InlineOrHeap {
    Inline(Inline),
    Heap(Heap),
}

/// A string value that stores short content inline and long content on
/// the heap.
#[derive(Debug)]
pub struct IString {
    repr: InlineOrHeap,
}

impl View for Inline {
    type V = Seq<u8>;

    /// The logical content: the prefix of the buffer selected by the
    /// length bits of the tag byte.
    open spec fn view(&self) -> Seq<u8> {
        let l = (self.len & LEN_MASK) as int;
        if l <= self.data@.len() {
            self.data@.take(l)
        } else {
            self.data@
        }
    }
}

impl Inline {
    /// Transfer-form well-formedness: a full buffer, a length within the
    /// inline capacity (hence no discriminant bit), well-formed content.
    pub open spec fn wf(&self) -> bool {
        &&& self.data@.len() == INLINE_CAPACITY
        &&& self.len <= INLINE_CAPACITY
        &&& valid_utf8(self@)
    }
}

impl View for Heap {
    type V = Seq<u8>;

    open spec fn view(&self) -> Seq<u8> {
        self.data@
    }
}

impl Heap {
    /// Well-formed: the capacity is in bounds and no less than the
    /// length, and the content is well formed.
    pub open spec fn wf(&self) -> bool {
        &&& self.data@.len() <= self.cap
        &&& self.cap < MAX_CAPACITY
        &&& valid_utf8(self@)
    }
}

impl View for IString {
    type V = Seq<u8>;

    /// The logical byte content, whichever shape is live.
    closed spec fn view(&self) -> Seq<u8> {
        match self.repr {
            InlineOrHeap::Inline(i) => i@,
            InlineOrHeap::Heap(h) => h@,
        }
    }
}

impl IString {
    /// True when the inline shape is live.
    pub closed spec fn spec_is_inline(&self) -> bool {
        self.repr is Inline
    }

    /// The capacity: the inline buffer size, or the heap allocation size.
    pub closed spec fn spec_capacity(&self) -> nat {
        match self.repr {
            InlineOrHeap::Inline(_) => INLINE_CAPACITY as nat,
            InlineOrHeap::Heap(h) => h.cap as nat,
        }
    }

    /// Well-formedness, established by every constructor and preserved by
    /// every operation: the live shape is internally consistent (installed
    /// inline shapes carry the discriminant bit), the length never exceeds
    /// the capacity, the capacity stays under `MAX_CAPACITY`, and the
    /// content is a well-formed UTF-8 encoding.
    pub closed spec fn wf(&self) -> bool {
        match self.repr {
            InlineOrHeap::Inline(i) => {
                &&& i.data@.len() == INLINE_CAPACITY
                &&& (i.len & IS_INLINE) != 0
                &&& (i.len & LEN_MASK) <= INLINE_CAPACITY
                &&& valid_utf8(i@)
            },
            InlineOrHeap::Heap(h) => h.wf(),
        }
    }

    /// What well-formedness guarantees about the observable model.
    pub proof fn lemma_wf(&self)
        requires
            self.wf(),
        ensures
            valid_utf8(self@),
            self@.len() <= self.spec_capacity(),
            self.spec_is_inline() ==> self.spec_capacity() == INLINE_CAPACITY,
            !self.spec_is_inline() ==> self.spec_capacity() < MAX_CAPACITY,
    {
    }

    /// A fresh empty value: inline, length zero.
    pub fn new() -> (r: IString)
        ensures
            r.wf(),
            r@ == Seq::<u8>::empty(),
            r.spec_is_inline(),
            r.spec_capacity() == INLINE_CAPACITY,
    {
        let data: Vec<u8> = vec![0u8; INLINE_CAPACITY];
        let tag = layout::set_logical_length(0);
        proof {
            assert(Seq::<u8>::empty() =~= data@.take(0));
        }
        IString { repr: InlineOrHeap::Inline(Inline { data, len: tag }) }
    }

    /// A fresh empty value with room for `capacity` bytes: inline when the
    /// request fits the inline buffer, else a heap shape of exactly the
    /// requested capacity. A capacity at or beyond `MAX_CAPACITY` would
    /// collide with the discriminant bit and is a fatal request.
    pub fn with_capacity(capacity: usize) -> (r: IString)
        requires
            capacity < MAX_CAPACITY,
        ensures
            r.wf(),
            r@ == Seq::<u8>::empty(),
            r.spec_is_inline() <==> capacity <= INLINE_CAPACITY,
            r.spec_capacity() == if capacity <= INLINE_CAPACITY {
                INLINE_CAPACITY as nat
            } else {
                capacity as nat
            },
    {
        if capacity > INLINE_CAPACITY {
            let data: Vec<u8> = Vec::new();
            proof {
                assert(Seq::<u8>::empty() =~= data@);
            }
            IString { repr: InlineOrHeap::Heap(Heap { data, cap: capacity }) }
        } else {
            IString::new()
        }
    }

    /// Reads the discriminant: `true` exactly when the inline shape is
    /// live.
    pub fn is_inline(&self) -> (r: bool)
        requires
            self.wf(),
        ensures
            r == self.spec_is_inline(),
    {
        match &self.repr {
            InlineOrHeap::Inline(i) => layout::is_inline_tag(i.len),
            InlineOrHeap::Heap(_) => false,
        }
    }

    /// The content length in bytes: the length bits of the tag byte, or
    /// the heap length.
    pub fn len(&self) -> (r: usize)
        requires
            self.wf(),
        ensures
            r == self@.len(),
    {
        match &self.repr {
            InlineOrHeap::Inline(i) => layout::logical_length(i.len) as usize,
            InlineOrHeap::Heap(h) => h.data.len(),
        }
    }

    /// The current capacity: the fixed inline buffer size, or the heap
    /// allocation size.
    pub fn capacity(&self) -> (r: usize)
        requires
            self.wf(),
        ensures
            r == self.spec_capacity(),
    {
        match &self.repr {
            InlineOrHeap::Inline(_) => INLINE_CAPACITY,
            InlineOrHeap::Heap(h) => h.cap,
        }
    }

    /// The content as a byte slice.
    pub fn as_bytes(&self) -> (r: &[u8])
        requires
            self.wf(),
        ensures
            r@ == self@,
    {
        match &self.repr {
            InlineOrHeap::Inline(i) => {
                let l = layout::logical_length(i.len) as usize;
                let r = vstd::slice::slice_subrange(i.data.as_slice(), 0, l);
                proof {
                    assert(r@ =~= i@);
                }
                r
            },
            InlineOrHeap::Heap(h) => h.data.as_slice(),
        }
    }

    /// The content as a string slice.
    pub fn as_str(&self) -> (r: &str)
        requires
            self.wf(),
        ensures
            r.spec_bytes() == self@,
            r@ == decode_utf8(self@),
    {
        let b = self.as_bytes();
        let r = strconv::bytes_as_str(b);
        proof {
            encode_utf8_decode_utf8(r@);
        }
        r
    }
}

/// The growth policy once capacity must increase: the smallest power of
/// two no smaller than the demand, which amortizes repeated small appends.
pub open spec fn next_pow2(n: nat) -> nat
    decreases n,
{
    if n <= 1 {
        1
    } else {
        2 * next_pow2((n + 1) / 2)
    }
}

/// The grown capacity always covers the demand.
pub proof fn lemma_next_pow2_at_least(n: nat)
    ensures
        next_pow2(n) >= n,
        next_pow2(n) >= 1,
    decreases n,
{
    if n > 1 {
        lemma_next_pow2_at_least((n + 1) / 2);
    }
}

/// The grown capacity at most doubles the demand, which bounds it away
/// from `MAX_CAPACITY` for any demand up to half of it.
pub proof fn lemma_next_pow2_upper(n: nat)
    ensures
        n <= 1 ==> next_pow2(n) == 1,
        n >= 2 ==> next_pow2(n) <= 2 * n - 2,
    decreases n,
{
    if n >= 2 {
        lemma_next_pow2_upper((n + 1) / 2);
    }
}

/// Computes `next_pow2` by halving the demand.
fn next_pow2_exec(n: usize) -> (r: usize)
    requires
        next_pow2(n as nat) < MAX_CAPACITY,
    ensures
        r == next_pow2(n as nat),
    decreases n,
{
    proof {
        lemma_next_pow2_at_least(n as nat);
    }
    if n <= 1 {
        1
    } else {
        proof {
            lemma_next_pow2_at_least(((n + 1) / 2) as nat);
        }
        2 * next_pow2_exec((n + 1) / 2)
    }
}

impl IString {
    /// True when `n` more bytes can be taken on: the grown value stays
    /// clear of `MAX_CAPACITY`, where the discriminant bit would become
    /// ambiguous (a fatal condition, not a recoverable one).
    pub open spec fn can_append(&self, n: nat) -> bool {
        let new_len = self@.len() + n;
        &&& new_len < MAX_CAPACITY
        &&& new_len > self.spec_capacity() ==> next_pow2(new_len) < MAX_CAPACITY
    }

    /// Promotes an inline value to a heap shape of capacity `cap`,
    /// copying the content; does nothing when the value is already
    /// heap-resident. Promotion is one way: nothing demotes implicitly.
    pub fn move_to_heap(&mut self, cap: usize)
        requires
            old(self).wf(),
            old(self).spec_is_inline() ==> old(self)@.len() <= cap < MAX_CAPACITY,
        ensures
            final(self).wf(),
            final(self)@ == old(self)@,
            !final(self).spec_is_inline(),
            final(self).spec_capacity() == if old(self).spec_is_inline() {
                cap as nat
            } else {
                old(self).spec_capacity()
            },
    {
        if self.is_inline() {
            let data = vstd::slice::slice_to_vec(self.as_bytes());
            self.repr = InlineOrHeap::Heap(Heap { data, cap });
        }
    }

    /// Reallocates the live heap shape to capacity `new_cap`, growing or
    /// shrinking while preserving the content; the capacity may not go
    /// below the current length.
    fn resize(&mut self, new_cap: usize)
        requires
            old(self).wf(),
            !old(self).spec_is_inline(),
            old(self)@.len() <= new_cap < MAX_CAPACITY,
        ensures
            final(self).wf(),
            final(self)@ == old(self)@,
            !final(self).spec_is_inline(),
            final(self).spec_capacity() == new_cap,
    {
        match &mut self.repr {
            InlineOrHeap::Heap(h) => {
                h.cap = new_cap;
            },
            InlineOrHeap::Inline(_) => {},
        }
    }

    /// Explicit demotion: content that fits the inline buffer moves back
    /// into it and the heap allocation is released; longer content keeps
    /// its heap shape, shrunk to an exact fit. A value that is already
    /// inline is left alone.
    pub fn shrink(&mut self)
        requires
            old(self).wf(),
        ensures
            final(self).wf(),
            final(self)@ == old(self)@,
            old(self).spec_is_inline() ==> *final(self) == *old(self),
            final(self).spec_is_inline() == (old(self).spec_is_inline() || old(self)@.len()
                <= INLINE_CAPACITY),
            !final(self).spec_is_inline() ==> final(self).spec_capacity() == old(self)@.len(),
            final(self).spec_is_inline() ==> final(self).spec_capacity() == INLINE_CAPACITY,
    {
        if !self.is_inline() {
            let l = self.len();
            if l <= INLINE_CAPACITY {
                let mut data = vstd::slice::slice_to_vec(self.as_bytes());
                while data.len() < INLINE_CAPACITY
                    invariant
                        l <= data@.len() <= INLINE_CAPACITY,
                        data@.take(l as int) == old(self)@,
                    decreases INLINE_CAPACITY - data@.len(),
                {
                    data.push(0);
                    proof {
                        assert(data@.take(l as int) =~= old(self)@);
                    }
                }
                let tag = layout::set_logical_length(l as u8);
                self.repr = InlineOrHeap::Inline(Inline { data, len: tag });
            } else {
                self.resize(l);
            }
        }
    }

    /// Reserves room for `additional` more bytes on top of the current
    /// capacity: an inline value with a growing request is promoted, a
    /// heap value is reallocated to the exact grown capacity.
    pub fn reserve(&mut self, additional: usize)
        requires
            old(self).wf(),
            old(self).spec_capacity() + additional < MAX_CAPACITY,
        ensures
            final(self).wf(),
            final(self)@ == old(self)@,
            final(self).spec_capacity() >= old(self)@.len() + additional,
            old(self).spec_is_inline() && additional == 0 ==> *final(self) == *old(self),
            old(self).spec_is_inline() && additional > 0 ==> !final(self).spec_is_inline()
                && final(self).spec_capacity() == INLINE_CAPACITY + additional,
            !old(self).spec_is_inline() ==> !final(self).spec_is_inline() && final(self).spec_capacity() == old(self).spec_capacity() + additional,
    {
        let new_cap = self.capacity() + additional;
        if self.is_inline() {
            if new_cap > INLINE_CAPACITY {
                self.move_to_heap(new_cap);
            }
        } else {
            self.resize(new_cap);
        }
    }

    /// Reserves room for exactly `additional` more bytes on top of the
    /// current capacity, promoting an inline value unconditionally.
    pub fn reserve_exact(&mut self, additional: usize)
        requires
            old(self).wf(),
            old(self).spec_capacity() + additional < MAX_CAPACITY,
        ensures
            final(self).wf(),
            final(self)@ == old(self)@,
            !final(self).spec_is_inline(),
            final(self).spec_capacity() == old(self).spec_capacity() + additional,
    {
        let new_cap = self.capacity() + additional;
        if self.is_inline() {
            self.move_to_heap(new_cap);
        } else {
            self.resize(new_cap);
        }
    }

    /// Writes `bytes` after the current content of the live shape, which
    /// must already have the room.
    fn append_bytes(&mut self, bytes: &[u8])
        requires
            old(self).wf(),
            valid_utf8(old(self)@ + bytes@),
            old(self)@.len() + bytes@.len() <= old(self).spec_capacity(),
        ensures
            final(self).wf(),
            final(self)@ == old(self)@ + bytes@,
            final(self).spec_is_inline() == old(self).spec_is_inline(),
            final(self).spec_capacity() == old(self).spec_capacity(),
    {
        let n = bytes.len();
        match &mut self.repr {
            InlineOrHeap::Inline(i) => {
                let l = layout::logical_length(i.len) as usize;
                let ghost start = i.data@;
                proof {
                    assert(old(self)@ =~= start.take(l as int));
                }
                let mut j: usize = 0;
                while j < n
                    invariant
                        j <= n,
                        n == bytes@.len(),
                        l + n <= INLINE_CAPACITY,
                        i.data@.len() == INLINE_CAPACITY,
                        i.data@.take(l as int) == start.take(l as int),
                        i.data@.subrange(l as int, l + j) == bytes@.take(j as int),
                    decreases n - j,
                {
                    let b = *vstd::slice::slice_index_get(bytes, j);
                    i.data[l + j] = b;
                    proof {
                        assert(i.data@.take(l as int) =~= start.take(l as int));
                        assert(i.data@.subrange(l as int, l + j + 1) =~= bytes@.take(j + 1));
                    }
                    j = j + 1;
                }
                let tag = layout::set_logical_length((l + n) as u8);
                i.len = tag;
                proof {
                    let li = l as int;
                    let ni = n as int;
                    assert((tag & LEN_MASK) as int == li + ni);
                    assert(i@ == i.data@.take(li + ni));
                    assert forall|k: int| 0 <= k < li + ni implies i.data@.take(li + ni)[k]
                        == (old(self)@ + bytes@)[k] by {
                        if k < li {
                            assert(i.data@.take(li)[k] == start.take(li)[k]);
                        } else {
                            assert(i.data@.subrange(li, li + ni)[k - li] == bytes@.take(
                                ni,
                            )[k - li]);
                        }
                    }
                    assert(i.data@.take(li + ni) =~= old(self)@ + bytes@);
                }
            },
            InlineOrHeap::Heap(h) => {
                let ghost start = h.data@;
                let ghost cap0 = h.cap;
                let mut j: usize = 0;
                while j < n
                    invariant
                        j <= n,
                        n == bytes@.len(),
                        h.cap == cap0,
                        h.data@ == start + bytes@.take(j as int),
                    decreases n - j,
                {
                    let b = *vstd::slice::slice_index_get(bytes, j);
                    h.data.push(b);
                    proof {
                        assert(start + bytes@.take(j + 1) =~= (start + bytes@.take(j as int)).push(
                            b,
                        ));
                    }
                    j = j + 1;
                }
                proof {
                    assert(bytes@.take(n as int) =~= bytes@);
                }
            },
        }
    }

    /// Appends raw content: grows by the power-of-two policy when the
    /// demand exceeds the capacity, then writes the bytes in place.
    fn push_bytes(&mut self, bytes: &[u8])
        requires
            old(self).wf(),
            valid_utf8(old(self)@ + bytes@),
            old(self).can_append(bytes@.len()),
        ensures
            final(self).wf(),
            final(self)@ == old(self)@ + bytes@,
            final(self).spec_is_inline() == (old(self).spec_is_inline() && old(self)@.len()
                + bytes@.len() <= INLINE_CAPACITY),
            final(self).spec_capacity() == if old(self)@.len() + bytes@.len() <= old(self).spec_capacity() {
                old(self).spec_capacity()
            } else {
                next_pow2(old(self)@.len() + bytes@.len())
            },
    {
        let old_len = self.len();
        let new_len = old_len + bytes.len();
        if self.is_inline() {
            if new_len > INLINE_CAPACITY {
                let cap = next_pow2_exec(new_len);
                proof {
                    lemma_next_pow2_at_least(new_len as nat);
                }
                self.move_to_heap(cap);
            }
        } else {
            if new_len > self.capacity() {
                let cap = next_pow2_exec(new_len);
                proof {
                    lemma_next_pow2_at_least(new_len as nat);
                }
                self.resize(cap);
            }
        }
        self.append_bytes(bytes);
    }

    /// Appends a string slice. Existing content is never lost: the new
    /// content is exactly the old content followed by the appended bytes,
    /// and the capacity still covers the length. A heap-resident value
    /// stays heap-resident.
    pub fn push_str(&mut self, s: &str)
        requires
            old(self).wf(),
            old(self).can_append(s.spec_bytes().len()),
        ensures
            final(self).wf(),
            final(self)@ == old(self)@ + s.spec_bytes(),
            final(self)@.len() == old(self)@.len() + s.spec_bytes().len(),
            final(self).spec_capacity() >= final(self)@.len(),
            final(self).spec_is_inline() == (old(self).spec_is_inline() && old(self)@.len()
                + s.spec_bytes().len() <= INLINE_CAPACITY),
            final(self).spec_capacity() == if old(self)@.len() + s.spec_bytes().len() <= old(self).spec_capacity() {
                old(self).spec_capacity()
            } else {
                next_pow2(old(self)@.len() + s.spec_bytes().len())
            },
    {
        let bytes = s.as_bytes();
        proof {
            self.lemma_wf();
            encode_utf8_valid_utf8(s@);
            valid_utf8_concat(old(self)@, bytes@);
        }
        self.push_bytes(bytes);
        proof {
            self.lemma_wf();
        }
    }
}

/// Encodes one character as its UTF-8 byte sequence.
fn encode_char(ch: char) -> (r: Vec<u8>)
    ensures
        r@ == encode_scalar(ch as u32),
        r@ == encode_utf8(seq![ch]),
        1 <= r@.len() <= 4,
        valid_utf8(r@),
{
    proof {
        char_is_scalar(ch);
        encode_utf8_valid_utf8(seq![ch]);
        assert(encode_utf8(seq![ch]) =~= encode_scalar(ch as u32) + encode_utf8(
            seq![ch].drop_first(),
        ));
        assert(seq![ch].drop_first() =~= Seq::<char>::empty());
        assert(encode_scalar(ch as u32) + encode_utf8(Seq::<char>::empty()) =~= encode_scalar(
            ch as u32,
        ));
    }
    let c = ch as u32;
    let mut r: Vec<u8> = Vec::new();
    if c <= 0x7f {
        proof {
            assert(c <= 0x7f ==> (c & 0x7f) == c) by (bit_vector);
        }
        r.push((c & 0x7f) as u8);
        proof {
            assert(r@ =~= encode_scalar(ch as u32));
        }
    } else if c <= 0x7ff {
        proof {
            assert(((c >> 6) & 0x1f) <= 0x1f && (c & 0x3f) <= 0x3f) by (bit_vector);
        }
        r.push(0xc0 | (((c >> 6) & 0x1f) as u8));
        r.push(0x80 | ((c & 0x3f) as u8));
        proof {
            assert(r@ =~= encode_scalar(ch as u32));
        }
    } else if c <= 0xffff {
        proof {
            assert((((c >> 12) & 0x0f) <= 0x0f && ((c >> 6) & 0x3f) <= 0x3f && (c & 0x3f)
                <= 0x3f)) by (bit_vector);
        }
        r.push(0xe0 | (((c >> 12) & 0x0f) as u8));
        r.push(0x80 | (((c >> 6) & 0x3f) as u8));
        r.push(0x80 | ((c & 0x3f) as u8));
        proof {
            assert(r@ =~= encode_scalar(ch as u32));
        }
    } else {
        proof {
            assert((((c >> 18) & 0x7) <= 0x7 && ((c >> 12) & 0x3f) <= 0x3f && ((c >> 6) & 0x3f)
                <= 0x3f && (c & 0x3f) <= 0x3f)) by (bit_vector);
        }
        r.push(0xf0 | (((c >> 18) & 0x7) as u8));
        r.push(0x80 | (((c >> 12) & 0x3f) as u8));
        r.push(0x80 | (((c >> 6) & 0x3f) as u8));
        r.push(0x80 | ((c & 0x3f) as u8));
        proof {
            assert(r@ =~= encode_scalar(ch as u32));
        }
    }
    r
}

impl IString {
    /// Appends one character, encoded in UTF-8, under the same growth
    /// policy as `push_str`.
    pub fn push(&mut self, ch: char)
        requires
            old(self).wf(),
            old(self).can_append(encode_scalar(ch as u32).len()),
        ensures
            final(self).wf(),
            final(self)@ == old(self)@ + encode_scalar(ch as u32),
            final(self).spec_is_inline() == (old(self).spec_is_inline() && old(self)@.len()
                + encode_scalar(ch as u32).len() <= INLINE_CAPACITY),
    {
        let buf = encode_char(ch);
        proof {
            self.lemma_wf();
            valid_utf8_concat(old(self)@, buf@);
        }
        self.push_bytes(buf.as_slice());
    }

    /// Cuts the content down to its first `new_len` bytes, which must end
    /// on a character boundary; a `new_len` at or beyond the current
    /// length leaves the value unchanged. Shape and capacity stay as they
    /// are.
    pub fn truncate(&mut self, new_len: usize)
        requires
            old(self).wf(),
            new_len < old(self)@.len() ==> is_char_boundary(old(self)@, new_len as int),
        ensures
            final(self).wf(),
            final(self)@ == if new_len < old(self)@.len() {
                old(self)@.take(new_len as int)
            } else {
                old(self)@
            },
            final(self).spec_is_inline() == old(self).spec_is_inline(),
            final(self).spec_capacity() == old(self).spec_capacity(),
    {
        let l = self.len();
        if new_len < l {
            proof {
                valid_utf8_split(old(self)@, new_len as int);
                assert(old(self)@.take(new_len as int) =~= old(self)@.subrange(
                    0,
                    new_len as int,
                ));
            }
            match &mut self.repr {
                InlineOrHeap::Inline(i) => {
                    let tag = layout::set_logical_length(new_len as u8);
                    i.len = tag;
                    proof {
                        assert(i@ =~= old(self)@.take(new_len as int));
                    }
                },
                InlineOrHeap::Heap(h) => {
                    h.data.truncate(new_len);
                },
            }
        }
    }

    /// Builds a value owning `data` as its content: inline when it fits,
    /// else a heap shape with an exact-fit capacity. Well-formedness of
    /// the result needs the content to be a well-formed encoding of
    /// in-bounds length.
    fn from_bytes(data: Vec<u8>) -> (r: IString)
        ensures
            r@ == data@,
            r.spec_is_inline() <==> data@.len() <= INLINE_CAPACITY,
            valid_utf8(data@) && data@.len() < MAX_CAPACITY ==> r.wf(),
            data@.len() > INLINE_CAPACITY ==> r.spec_capacity() == data@.len(),
    {
        let l = data.len();
        if l <= INLINE_CAPACITY {
            let ghost content = data@;
            let mut buf = data;
            while buf.len() < INLINE_CAPACITY
                invariant
                    l <= buf@.len() <= INLINE_CAPACITY,
                    buf@.take(l as int) == content,
                decreases INLINE_CAPACITY - buf@.len(),
            {
                buf.push(0);
                proof {
                    assert(buf@.take(l as int) =~= content);
                }
            }
            let tag = layout::set_logical_length(l as u8);
            IString { repr: InlineOrHeap::Inline(Inline { data: buf, len: tag }) }
        } else {
            IString { repr: InlineOrHeap::Heap(Heap { data, cap: l }) }
        }
    }

    /// Builds a value from a string slice: entirely inline when the
    /// content fits the inline buffer (no heap shape involved), else one
    /// exact-fit heap allocation.
    pub fn from(s: &str) -> (r: IString)
        requires
            s.spec_bytes().len() < MAX_CAPACITY,
        ensures
            r.wf(),
            r@ == s.spec_bytes(),
            r.spec_is_inline() <==> s.spec_bytes().len() <= INLINE_CAPACITY,
            !r.spec_is_inline() ==> r.spec_capacity() == s.spec_bytes().len(),
    {
        proof {
            encode_utf8_valid_utf8(s@);
        }
        Self::from_bytes(vstd::slice::slice_to_vec(s.as_bytes()))
    }

    /// Builds a value from an owned string, adopting its buffer directly
    /// when the string has a usable nonzero capacity; a string without an
    /// allocation becomes the empty inline value.
    pub fn from_string(s: String) -> (r: IString)
        requires
            encode_utf8(s@).len() < MAX_CAPACITY,
        ensures
            r.wf(),
            r@ == encode_utf8(s@),
            encode_utf8(s@).len() > INLINE_CAPACITY ==> !r.spec_is_inline(),
    {
        proof {
            encode_utf8_valid_utf8(s@);
        }
        let cap = strconv::string_capacity(&s);
        let data = strconv::string_into_bytes(s);
        if cap == 0 {
            let r = IString::new();
            proof {
                assert(r@ =~= data@);
            }
            r
        } else if cap < MAX_CAPACITY {
            IString { repr: InlineOrHeap::Heap(Heap { data, cap }) }
        } else {
            // a capacity that would collide with the discriminant bit:
            // fall back to an exact-fit buffer
            Self::from_bytes(data)
        }
    }

    /// Validates `bytes` and builds a value owning them; bytes that are
    /// not a well-formed UTF-8 encoding come back in the error, together
    /// with the position of the first malformed scalar.
    pub fn from_utf8(bytes: Vec<u8>) -> (r: Result<IString, FromUtf8Error>)
        requires
            bytes@.len() < MAX_CAPACITY,
        ensures
            (r is Ok) <==> valid_utf8(bytes@),
            r matches Ok(v) ==> v.wf() && v@ == bytes@ && (v.spec_is_inline() <==> bytes@.len()
                <= INLINE_CAPACITY),
            r matches Err(e) ==> e.wf() && e.spec_bytes() == bytes@,
    {
        match validate::validate_utf8(bytes.as_slice()) {
            Ok(()) => Ok(Self::from_bytes(bytes)),
            Err(pos) => Err(FromUtf8Error::new(bytes, pos)),
        }
    }

    /// Consumes the value into an owned string with the same content.
    pub fn into_string(self) -> (r: String)
        requires
            self.wf(),
        ensures
            encode_utf8(r@) == self@,
            r@ == decode_utf8(self@),
    {
        proof {
            self.lemma_wf();
        }
        let r = match self.repr {
            InlineOrHeap::Inline(i) => {
                let l = layout::logical_length(i.len) as usize;
                let mut data = i.data;
                data.truncate(l);
                proof {
                    assert(data@ =~= i@);
                }
                strconv::string_from_bytes(data)
            },
            InlineOrHeap::Heap(h) => strconv::string_from_bytes(h.data),
        };
        proof {
            encode_utf8_decode_utf8(r@);
        }
        r
    }

    /// Consumes the value into its content bytes.
    pub fn into_bytes(self) -> (r: Vec<u8>)
        requires
            self.wf(),
        ensures
            r@ == self@,
    {
        match self.repr {
            InlineOrHeap::Inline(i) => {
                let l = layout::logical_length(i.len) as usize;
                let mut data = i.data;
                data.truncate(l);
                proof {
                    assert(data@ =~= i@);
                }
                data
            },
            InlineOrHeap::Heap(h) => h.data,
        }
    }

    /// Consumes a heap-resident value into its raw heap shape; the value
    /// is moved out, so its own release never runs — the caller owns the
    /// parts. Calling this on an inline value is a fatal misuse.
    pub fn to_heap(self) -> (r: Heap)
        requires
            self.wf(),
            !self.spec_is_inline(),
        ensures
            r.wf(),
            r@ == self@,
            r.cap == self.spec_capacity(),
    {
        match self.repr {
            InlineOrHeap::Heap(h) => h,
            InlineOrHeap::Inline(_) => vstd::pervasive::unreached(),
        }
    }

    /// The exact inverse of `to_heap`: adopts a raw heap shape without
    /// copying. Well-formedness of the shape keeps the length word clear
    /// of the discriminant bit.
    pub fn from_heap(heap: Heap) -> (r: IString)
        requires
            heap.wf(),
        ensures
            r.wf(),
            r@ == heap@,
            !r.spec_is_inline(),
            r.spec_capacity() == heap.cap,
    {
        IString { repr: InlineOrHeap::Heap(heap) }
    }

    /// Consumes an inline value into its raw inline shape, with the
    /// discriminant bit cleared out of the length byte. Calling this on a
    /// heap-resident value is a fatal misuse.
    pub fn to_inline(self) -> (r: Inline)
        requires
            self.wf(),
            self.spec_is_inline(),
        ensures
            r.wf(),
            r@ == self@,
            r.len <= INLINE_CAPACITY,
    {
        match self.repr {
            InlineOrHeap::Inline(i) => {
                let len = layout::logical_length(i.len);
                proof {
                    let t = i.len;
                    assert((len & LEN_MASK) == len) by (bit_vector)
                        requires
                            len == (t & 0x7f),
                    ;
                }
                Inline { data: i.data, len }
            },
            InlineOrHeap::Heap(_) => vstd::pervasive::unreached(),
        }
    }

    /// The exact inverse of `to_inline`: adopts a raw inline shape,
    /// setting the discriminant bit in the length byte.
    pub fn from_inline(inline: Inline) -> (r: IString)
        requires
            inline.wf(),
        ensures
            r.wf(),
            r@ == inline@,
            r.spec_is_inline(),
            r.spec_capacity() == INLINE_CAPACITY,
    {
        let tag = layout::set_logical_length(inline.len);
        proof {
            let l = inline.len;
            assert(l <= 0x17 ==> (l & 0x7f) == l) by (bit_vector);
        }
        IString { repr: InlineOrHeap::Inline(Inline { data: inline.data, len: tag }) }
    }
}

impl Clone for IString {
    /// An inline value clones by a plain copy of its shape. A
    /// heap-resident value clones by a fresh buffer sized to the content
    /// (capacity slack is not kept), which lands inline when the content
    /// fits. The clone owns its own storage, so the two values are
    /// independent from here on.
    fn clone(&self) -> (r: IString)
        ensures
            self.wf() ==> {
                &&& r.wf()
                &&& r@ == self@
                &&& r.spec_is_inline() == (self.spec_is_inline() || self@.len()
                    <= INLINE_CAPACITY)
                &&& !r.spec_is_inline() ==> r.spec_capacity() == self@.len()
            },
    {
        match &self.repr {
            InlineOrHeap::Inline(i) => IString {
                repr: InlineOrHeap::Inline(
                    Inline { data: vstd::slice::slice_to_vec(i.data.as_slice()), len: i.len },
                ),
            },
            InlineOrHeap::Heap(h) => {
                let data = vstd::slice::slice_to_vec(h.data.as_slice());
                IString::from_bytes(data)
            },
        }
    }
}

impl Default for IString {
    /// The empty inline value.
    fn default() -> (r: IString)
        ensures
            r.wf(),
            r@ == Seq::<u8>::empty(),
            r.spec_is_inline(),
    {
        IString::new()
    }
}

impl vstd::std_specs::cmp::PartialEqSpecImpl for IString {
    open spec fn obeys_eq_spec() -> bool {
        true
    }

    open spec fn eq_spec(&self, other: &IString) -> bool {
        self@ == other@
    }
}

impl PartialEq for IString {
    /// Content equality: two values are equal when their bytes are,
    /// whatever their shapes and capacities.
    fn eq(&self, other: &IString) -> (r: bool) {
        crate::bytes_eq(self.view_bytes(), other.view_bytes())
    }
}

impl Eq for IString {

}

impl vstd::std_specs::cmp::PartialEqSpecImpl<&str> for IString {
    open spec fn obeys_eq_spec() -> bool {
        true
    }

    open spec fn eq_spec(&self, other: &&str) -> bool {
        self@ == other.spec_bytes()
    }
}

impl PartialEq<&str> for IString {
    /// Content equality against a string slice.
    fn eq(&self, other: &&str) -> (r: bool) {
        crate::bytes_eq(self.view_bytes(), other.as_bytes())
    }
}

impl IString {
    /// The content bytes of any value, well formed or not: what the
    /// logical view selects.
    fn view_bytes(&self) -> (r: &[u8])
        ensures
            r@ == self@,
    {
        match &self.repr {
            InlineOrHeap::Inline(i) => {
                let l = layout::logical_length(i.len) as usize;
                let dl = i.data.len();
                let m = if l <= dl {
                    l
                } else {
                    dl
                };
                let r = vstd::slice::slice_subrange(i.data.as_slice(), 0, m);
                proof {
                    assert(r@ =~= i@);
                }
                r
            },
            InlineOrHeap::Heap(h) => h.data.as_slice(),
        }
    }
}

/// Round trip: building a value from text and reading it back reproduces
/// the original exactly. The encoding of any text is well formed, and
/// decoding it yields the text again — with `IString::from` and
/// `IString::as_str` (or `into_string`), whose contracts speak of
/// `encode_utf8` and `decode_utf8`, text of any length survives the trip
/// through either shape unchanged.
pub proof fn lemma_text_round_trip(text: Seq<char>)
    ensures
        valid_utf8(encode_utf8(text)),
        decode_utf8(encode_utf8(text)) == text,
{
    encode_utf8_valid_utf8(text);
    encode_utf8_decode_utf8(text);
}

/// Ownership-transfer round trip for the heap shape: a value rebuilt by
/// `from_heap` from the parts that `to_heap` handed out is
/// indistinguishable from the source — same content, same shape, same
/// capacity — and the parts changed hands exactly once.
pub proof fn lemma_heap_round_trip(s: IString, h: Heap, r: IString)
    requires
        s.wf(),
        !s.spec_is_inline(),
        h.wf(),
        h@ == s@,
        h.cap == s.spec_capacity(),
        r.wf(),
        r@ == h@,
        !r.spec_is_inline(),
        r.spec_capacity() == h.cap,
    ensures
        r@ == s@,
        r.spec_is_inline() == s.spec_is_inline(),
        r.spec_capacity() == s.spec_capacity(),
{
}

/// Ownership-transfer round trip for the inline shape: a value rebuilt by
/// `from_inline` from the parts that `to_inline` handed out is
/// indistinguishable from the source.
pub proof fn lemma_inline_round_trip(s: IString, i: Inline, r: IString)
    requires
        s.wf(),
        s.spec_is_inline(),
        i.wf(),
        i@ == s@,
        r.wf(),
        r@ == i@,
        r.spec_is_inline(),
        r.spec_capacity() == INLINE_CAPACITY,
    ensures
        r@ == s@,
        r.spec_is_inline() == s.spec_is_inline(),
        r.spec_capacity() == s.spec_capacity(),
{
}

} // verus!
