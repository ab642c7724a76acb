//! A UTF-8 validator, proved against the reference encoding predicates.
//!
//! `validate_utf8` decides whether a byte slice is a well-formed UTF-8
//! encoding, and on failure reports the length of the longest valid prefix
//! that ends on a scalar boundary — the position at which the first
//! malformed scalar starts.

use vstd::prelude::*;
use vstd::utf8::*;

verus! {

/// Decides whether `b` has the continuation-byte form `10xxxxxx`.
fn is_cont(b: u8) -> (r: bool)
    ensures
        r == is_continuation_byte(b),
{
    0x80 <= b && b <= 0xbf
}

// A two-byte leading byte of at least 0xc2 cannot start an overlong or
// surrogate encoding.
proof fn lemma_width_2_ok(b0: u8, b1: u8)
    requires
        0xc2 <= b0 <= 0xdf,
        0x80 <= b1 <= 0xbf,
    ensures
        not_overlong_encoding(codepoint_width_2(b0, b1), 2),
        not_surrogate(codepoint_width_2(b0, b1)),
{
    assert((((((b0 & 0x1f) as u32) << 6) | ((b1 & 0x3f) as u32)) >= 0x80) && (((((b0
        & 0x1f) as u32) << 6) | ((b1 & 0x3f) as u32)) <= 0x7ff)) by (bit_vector)
        requires
            0xc2 <= b0 <= 0xdf && 0x80 <= b1 <= 0xbf,
    ;
}

// The leading bytes 0xc0 and 0xc1 always start an overlong two-byte
// encoding.
proof fn lemma_width_2_overlong(b0: u8, b1: u8)
    requires
        0xc0 <= b0 <= 0xc1,
    ensures
        codepoint_width_2(b0, b1) < 0x80,
{
    assert((((((b0 & 0x1f) as u32) << 6) | ((b1 & 0x3f) as u32)) < 0x80)) by (bit_vector)
        requires
            0xc0 <= b0 <= 0xc1,
    ;
}

// The admissible three-byte patterns: 0xe0 demands a high first
// continuation byte (else the encoding is overlong), 0xed a low one (else
// the codepoint is a surrogate).
proof fn lemma_width_3_ok(b0: u8, b1: u8, b2: u8)
    requires
        0xe0 <= b0 <= 0xef,
        0x80 <= b1 <= 0xbf,
        0x80 <= b2 <= 0xbf,
        b0 == 0xe0 ==> b1 >= 0xa0,
        b0 == 0xed ==> b1 <= 0x9f,
    ensures
        not_overlong_encoding(codepoint_width_3(b0, b1, b2), 3),
        not_surrogate(codepoint_width_3(b0, b1, b2)),
{
    let cp = ((((b0 & 0x0f) as u32) << 12) | (((b1 & 0x3f) as u32) << 6)) | ((b2
        & 0x3f) as u32);
    assert((((((b0 & 0x0f) as u32) << 12) | (((b1 & 0x3f) as u32) << 6)) | ((b2
        & 0x3f) as u32)) >= 0x800 && !(0xd800 <= ((((b0 & 0x0f) as u32) << 12) | (((b1
        & 0x3f) as u32) << 6)) | ((b2 & 0x3f) as u32) && ((((b0 & 0x0f) as u32) << 12) | (((b1
        & 0x3f) as u32) << 6)) | ((b2 & 0x3f) as u32) <= 0xdfff)) by (bit_vector)
        requires
            0xe0 <= b0 <= 0xef && 0x80 <= b1 <= 0xbf && 0x80 <= b2 <= 0xbf && (b0 == 0xe0
                ==> b1 >= 0xa0) && (b0 == 0xed ==> b1 <= 0x9f),
    ;
}

// Rejected three-byte patterns: 0xe0 with a low continuation byte is
// overlong, 0xed with a high one lands in the surrogate range.
proof fn lemma_width_3_bad(b0: u8, b1: u8, b2: u8)
    requires
        0x80 <= b1 <= 0xbf,
        (b0 == 0xe0 && b1 < 0xa0) || (b0 == 0xed && b1 >= 0xa0),
    ensures
        !(not_overlong_encoding(codepoint_width_3(b0, b1, b2), 3) && not_surrogate(
            codepoint_width_3(b0, b1, b2),
        )),
{
    if b0 == 0xe0 && b1 < 0xa0 {
        assert((((((b0 & 0x0f) as u32) << 12) | (((b1 & 0x3f) as u32) << 6)) | ((b2
            & 0x3f) as u32)) < 0x800) by (bit_vector)
            requires
                b0 == 0xe0 && b1 < 0xa0 && 0x80 <= b1,
        ;
    } else {
        assert(0xd800 <= (((((b0 & 0x0f) as u32) << 12) | (((b1 & 0x3f) as u32) << 6)) | ((b2
            & 0x3f) as u32)) && (((((b0 & 0x0f) as u32) << 12) | (((b1 & 0x3f) as u32) << 6))
            | ((b2 & 0x3f) as u32)) <= 0xdfff) by (bit_vector)
            requires
                b0 == 0xed && 0xa0 <= b1 <= 0xbf,
        ;
    }
}

// The admissible four-byte patterns: 0xf0 demands a high first
// continuation byte (else overlong), 0xf4 a low one and nothing above 0xf4
// is admissible (else the codepoint exceeds the scalar range).
proof fn lemma_width_4_ok(b0: u8, b1: u8, b2: u8, b3: u8)
    requires
        0xf0 <= b0 <= 0xf4,
        0x80 <= b1 <= 0xbf,
        0x80 <= b2 <= 0xbf,
        0x80 <= b3 <= 0xbf,
        b0 == 0xf0 ==> b1 >= 0x90,
        b0 == 0xf4 ==> b1 <= 0x8f,
    ensures
        not_overlong_encoding(codepoint_width_4(b0, b1, b2, b3), 4),
        not_surrogate(codepoint_width_4(b0, b1, b2, b3)),
{
    assert(0x10000 <= ((((((b0 & 0x07) as u32) << 18) | (((b1 & 0x3f) as u32) << 12)) | (((b2
        & 0x3f) as u32) << 6)) | ((b3 & 0x3f) as u32)) && ((((((b0 & 0x07) as u32) << 18)
        | (((b1 & 0x3f) as u32) << 12)) | (((b2 & 0x3f) as u32) << 6)) | ((b3
        & 0x3f) as u32)) <= 0x10ffff) by (bit_vector)
        requires
            0xf0 <= b0 <= 0xf4 && 0x80 <= b1 <= 0xbf && 0x80 <= b2 <= 0xbf && 0x80 <= b3 <= 0xbf
                && (b0 == 0xf0 ==> b1 >= 0x90) && (b0 == 0xf4 ==> b1 <= 0x8f),
    ;
}

// Rejected four-byte patterns: 0xf0 with a low continuation byte is
// overlong, anything decoding above 0x10ffff is out of scalar range.
proof fn lemma_width_4_bad(b0: u8, b1: u8, b2: u8, b3: u8)
    requires
        0xf0 <= b0 <= 0xf7,
        0x80 <= b1 <= 0xbf,
        (b0 == 0xf0 && b1 < 0x90) || (b0 == 0xf4 && b1 > 0x8f) || b0 > 0xf4,
    ensures
        !not_overlong_encoding(codepoint_width_4(b0, b1, b2, b3), 4),
{
    if b0 == 0xf0 && b1 < 0x90 {
        assert(((((((b0 & 0x07) as u32) << 18) | (((b1 & 0x3f) as u32) << 12)) | (((b2
            & 0x3f) as u32) << 6)) | ((b3 & 0x3f) as u32)) < 0x10000) by (bit_vector)
            requires
                b0 == 0xf0 && 0x80 <= b1 && b1 < 0x90,
        ;
    } else {
        assert(((((((b0 & 0x07) as u32) << 18) | (((b1 & 0x3f) as u32) << 12)) | (((b2
            & 0x3f) as u32) << 6)) | ((b3 & 0x3f) as u32)) > 0x10ffff) by (bit_vector)
            requires
                0xf0 <= b0 <= 0xf7 && 0x80 <= b1 <= 0xbf && ((b0 == 0xf4 && b1 > 0x8f) || b0
                    > 0xf4),
        ;
    }
}

/// Examines the scalar encoding that starts at position `i`. Returns its
/// width when it is well formed, and `None` when the suffix starting at
/// `i` does not begin with a well-formed scalar encoding.
fn check_scalar(bytes: &[u8], i: usize) -> (r: Option<usize>)
    requires
        i < bytes@.len(),
    ensures
        ({
            let s = bytes@.subrange(i as int, bytes@.len() as int);
            match r {
                Some(w) => valid_first_scalar(s) && w == length_of_first_scalar(s) && 1 <= w
                    <= 4 && i + w <= bytes@.len(),
                None => !valid_first_scalar(s),
            }
        }),
{
    let ghost s = bytes@.subrange(i as int, bytes@.len() as int);
    let n = bytes.len();
    let b0 = *vstd::slice::slice_index_get(bytes, i);
    proof {
        assert(s[0] == bytes@[i as int]);
    }
    if b0 <= 0x7f {
        proof {
            assert(codepoint_width_1(b0) == (b0 & 0x7f) as u32);
            assert(b0 <= 0x7f ==> (b0 & 0x7f) == b0) by (bit_vector);
        }
        Some(1)
    } else if 0xc0 <= b0 && b0 <= 0xdf {
        if n - i > 1 {
            let b1 = *vstd::slice::slice_index_get(bytes, i + 1);
            proof {
                assert(s[1] == bytes@[i + 1]);
            }
            if is_cont(b1) && b0 >= 0xc2 {
                proof {
                    lemma_width_2_ok(b0, b1);
                }
                Some(2)
            } else {
                proof {
                    if is_continuation_byte(b1) {
                        lemma_width_2_overlong(b0, b1);
                    }
                }
                None
            }
        } else {
            None
        }
    } else if 0xe0 <= b0 && b0 <= 0xef {
        if n - i > 2 {
            let b1 = *vstd::slice::slice_index_get(bytes, i + 1);
            let b2 = *vstd::slice::slice_index_get(bytes, i + 2);
            proof {
                assert(s[1] == bytes@[i + 1]);
                assert(s[2] == bytes@[i + 2]);
            }
            let first_ok = if b0 == 0xe0 {
                0xa0 <= b1 && b1 <= 0xbf
            } else if b0 == 0xed {
                0x80 <= b1 && b1 <= 0x9f
            } else {
                is_cont(b1)
            };
            if first_ok && is_cont(b2) {
                proof {
                    lemma_width_3_ok(b0, b1, b2);
                }
                Some(3)
            } else {
                proof {
                    if is_continuation_byte(b1) && is_continuation_byte(b2) {
                        lemma_width_3_bad(b0, b1, b2);
                    }
                }
                None
            }
        } else {
            // not enough continuation bytes for a three-byte scalar
            None
        }
    } else if 0xf0 <= b0 && b0 <= 0xf7 {
        if n - i > 3 {
            let b1 = *vstd::slice::slice_index_get(bytes, i + 1);
            let b2 = *vstd::slice::slice_index_get(bytes, i + 2);
            let b3 = *vstd::slice::slice_index_get(bytes, i + 3);
            proof {
                assert(s[1] == bytes@[i + 1]);
                assert(s[2] == bytes@[i + 2]);
                assert(s[3] == bytes@[i + 3]);
            }
            let first_ok = if b0 == 0xf0 {
                0x90 <= b1 && b1 <= 0xbf
            } else if b0 >= 0xf4 {
                b0 == 0xf4 && 0x80 <= b1 && b1 <= 0x8f
            } else {
                is_cont(b1)
            };
            if first_ok && is_cont(b2) && is_cont(b3) {
                proof {
                    lemma_width_4_ok(b0, b1, b2, b3);
                }
                Some(4)
            } else {
                proof {
                    if is_continuation_byte(b1) && is_continuation_byte(b2)
                        && is_continuation_byte(b3) {
                        lemma_width_4_bad(b0, b1, b2, b3);
                    }
                }
                None
            }
        } else {
            // not enough continuation bytes for a four-byte scalar
            None
        }
    } else {
        // a stray continuation byte (0x80..0xbf) or an impossible leading
        // byte (0xf8..0xff): no shape of leading byte fits
        None
    }
}

/// Decides whether `bytes` is a well-formed UTF-8 encoding. On failure the
/// reported position is the length of the longest well-formed prefix that
/// ends on a scalar boundary: the first malformed scalar starts there.
pub fn validate_utf8(bytes: &[u8]) -> (r: Result<(), usize>)
    ensures
        (r is Ok) <==> valid_utf8(bytes@),
        r matches Err(e) ==> e < bytes@.len() && valid_utf8(bytes@.subrange(0, e as int))
            && !valid_first_scalar(bytes@.subrange(e as int, bytes@.len() as int)),
{
    let n = bytes.len();
    let mut i: usize = 0;
    while i < n
        invariant
            i <= n,
            n == bytes@.len(),
            partial_valid_utf8(bytes@, i as int),
        decreases n - i,
    {
        match check_scalar(bytes, i) {
            Some(w) => {
                proof {
                    partial_valid_utf8_extend(bytes@, i as int);
                }
                i = i + w;
            },
            None => {
                proof {
                    let suffix = bytes@.subrange(i as int, bytes@.len() as int);
                    assert(suffix.len() > 0);
                    assert(!valid_utf8(suffix));
                    partial_valid_partial_invalid_utf8(bytes@, i as int);
                }
                return Err(i);
            },
        }
    }
    proof {
        assert(bytes@.subrange(0, n as int) =~= bytes@);
    }
    Ok(())
}

} // verus!
