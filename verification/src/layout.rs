//! The layout engine: the bit-packed length byte shared by the two shapes.
//!
//! In the modelled layout the inline shape carries one tag byte whose high
//! bit is the discriminant (set means inline) and whose low seven bits are
//! the inline length. The same byte position is the most significant byte
//! of the heap shape's length word, so the discriminant stays readable no
//! matter which shape is live, as long as every heap length keeps its high
//! bit clear — that is what `MAX_CAPACITY` bounds: one bit short of the
//! native word.

use vstd::prelude::*;

verus! {

/// High bit of the tag byte: set exactly when the inline shape is live.
pub const IS_INLINE: u8 = 0x80;

/// The seven low bits of the tag byte: the inline length.
pub const LEN_MASK: u8 = 0x7f;

/// Largest admissible heap capacity: one bit short of the native length
/// word, so no in-bounds heap length can ever set the discriminant bit.
pub const MAX_CAPACITY: usize = usize::MAX / 2;

/// `MAX_CAPACITY` as it reads in the 64-bit heap length word.
pub const LEN_WORD_MAX: u64 = 0x7fff_ffff_ffff_ffff;

/// Reads the discriminant bit of a tag byte.
pub fn is_inline_tag(tag: u8) -> (r: bool)
    ensures
        r == ((tag & IS_INLINE) != 0),
{
    (tag & IS_INLINE) != 0
}

/// Reads the logical length out of a packed tag byte.
pub fn logical_length(tag: u8) -> (len: u8)
    ensures
        len == (tag & LEN_MASK),
        len <= LEN_MASK,
{
    proof {
        assert(tag & 0x7f <= 0x7f) by (bit_vector);
    }
    tag & LEN_MASK
}

/// Packs a logical length into a tag byte with the discriminant bit set.
pub fn set_logical_length(len: u8) -> (tag: u8)
    requires
        len <= LEN_MASK,
    ensures
        tag == (len | IS_INLINE),
        (tag & IS_INLINE) != 0,
        (tag & LEN_MASK) == len,
{
    proof {
        assert((len | 0x80) & 0x80 != 0) by (bit_vector);
        assert(len <= 0x7f ==> ((len | 0x80) & 0x7f) == len) by (bit_vector);
    }
    len | IS_INLINE
}

/// The value the 64-bit heap length word takes when the byte it shares
/// with the inline tag holds `tag` and every other byte of the word is
/// zero (little endian: the shared byte is the most significant byte of
/// the word). A tag with the discriminant bit set always reads as a length
/// beyond `LEN_WORD_MAX`, which is what keeps the one-bit discriminant
/// unambiguous between the two shapes.
pub fn heap_len_word(tag: u8) -> (word: u64)
    ensures
        word == ((tag as u64) << 56),
        ((tag & IS_INLINE) != 0) <==> (word > LEN_WORD_MAX),
{
    proof {
        assert((tag & 0x80 != 0) <==> (((tag as u64) << 56) > 0x7fff_ffff_ffff_ffffu64))
            by (bit_vector);
    }
    (tag as u64) << 56
}

/// The discriminant is unambiguous: a 64-bit heap length is in bounds
/// exactly when the byte it shares with the inline tag shows the
/// discriminant bit clear.
pub proof fn lemma_discriminant_unambiguous(len: u64)
    ensures
        (len <= LEN_WORD_MAX) <==> ((((len >> 56) as u8) & IS_INLINE) == 0),
{
    assert((len <= 0x7fff_ffff_ffff_ffffu64) <==> ((((len >> 56) as u8) & 0x80) == 0))
        by (bit_vector);
}

} // verus!
