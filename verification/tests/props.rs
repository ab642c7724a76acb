//! Scenario tests for the growable variant: construction shapes, append,
//! promotion, demotion, cloning and ownership transfer.

use istring::istring::INLINE_CAPACITY;
use istring::IString;

#[test]
fn new_is_empty_inline() {
    let s = IString::new();
    assert_eq!(s.len(), 0);
    assert!(s.is_inline());
    assert_eq!(s.capacity(), INLINE_CAPACITY);
    assert_eq!(s.as_str(), "");
}

#[test]
fn short_text_is_inline() {
    let s = IString::from("Hello World!");
    assert!(s.is_inline());
    assert_eq!(s.len(), 12);
    assert_eq!(s.as_str(), "Hello World!");
}

#[test]
fn max_inline_text_is_inline() {
    let text = "abcdefghijklmnopqrstuvw";
    assert_eq!(text.len(), INLINE_CAPACITY);
    let s = IString::from(text);
    assert!(s.is_inline());
    assert_eq!(s.len(), INLINE_CAPACITY);
    assert_eq!(s.as_str(), text);
}

#[test]
fn long_text_is_heap_with_room() {
    let text = "Hello World! .............";
    assert_eq!(text.len(), 26);
    let s = IString::from(text);
    assert!(!s.is_inline());
    assert!(s.capacity() >= 26);
    assert_eq!(s.len(), 26);
    assert_eq!(s.as_str(), text);
}

#[test]
fn append_promotes_and_keeps_content() {
    let mut s = IString::from("Hello World!");
    assert!(s.is_inline());
    let suffix = " .............";
    assert_eq!(suffix.len(), 14);
    s.push_str(suffix);
    assert_eq!(s.len(), 26);
    assert!(!s.is_inline());
    assert_eq!(s.as_str(), "Hello World! .............");
    assert!(s.capacity() >= s.len());
}

#[test]
fn append_never_loses_bytes() {
    let mut s = IString::new();
    let mut expected = String::new();
    for part in ["one ", "two ", "three ", "four and a longer tail ", "five"] {
        let before = s.len();
        s.push_str(part);
        expected.push_str(part);
        assert_eq!(s.len(), before + part.len());
        assert_eq!(s.as_str(), expected.as_str());
        assert!(s.capacity() >= s.len());
    }
}

#[test]
fn promotion_is_monotonic() {
    let mut s = IString::from("a string that does not fit the inline buffer");
    assert!(!s.is_inline());
    s.push_str("!");
    assert!(!s.is_inline());
    s.truncate(3);
    assert!(!s.is_inline(), "truncation alone must not re-inline");
    s.reserve(1);
    assert!(!s.is_inline());
    s.reserve_exact(1);
    assert!(!s.is_inline());
}

#[test]
fn shrink_after_truncation_re_inlines() {
    let mut s = IString::from("a string that does not fit the inline buffer");
    assert!(!s.is_inline());
    s.truncate(8);
    assert!(!s.is_inline());
    s.shrink();
    assert!(s.is_inline());
    assert_eq!(s.as_str(), "a string");
    assert_eq!(s.capacity(), INLINE_CAPACITY);
}

#[test]
fn shrink_long_content_gives_exact_fit() {
    let mut s = IString::with_capacity(100);
    s.push_str("a string that does not fit the inline buffer");
    assert_eq!(s.capacity(), 100);
    s.shrink();
    assert!(!s.is_inline());
    assert_eq!(s.capacity(), s.len());
    assert_eq!(s.as_str(), "a string that does not fit the inline buffer");
}

#[test]
fn shrink_on_inline_is_a_no_op() {
    let mut s = IString::from("short");
    s.shrink();
    assert!(s.is_inline());
    assert_eq!(s.as_str(), "short");
}

#[test]
fn with_capacity_shapes() {
    let s = IString::with_capacity(10);
    assert!(s.is_inline());
    assert_eq!(s.capacity(), INLINE_CAPACITY);
    assert_eq!(s.len(), 0);

    let t = IString::with_capacity(100);
    assert!(!t.is_inline());
    assert_eq!(t.capacity(), 100);
    assert_eq!(t.len(), 0);
}

#[test]
fn reserve_behaviour() {
    let mut s = IString::from("hi");
    s.reserve(0);
    assert!(s.is_inline());
    s.reserve(1);
    assert!(!s.is_inline());
    assert_eq!(s.capacity(), INLINE_CAPACITY + 1);
    s.reserve(6);
    assert_eq!(s.capacity(), INLINE_CAPACITY + 7);
    assert_eq!(s.as_str(), "hi");
}

#[test]
fn reserve_exact_promotes_unconditionally() {
    let mut s = IString::from("hi");
    s.reserve_exact(0);
    assert!(!s.is_inline());
    assert_eq!(s.capacity(), INLINE_CAPACITY);
    assert_eq!(s.as_str(), "hi");
}

#[test]
fn move_to_heap_is_one_way() {
    let mut s = IString::from("tiny");
    s.move_to_heap(40);
    assert!(!s.is_inline());
    assert_eq!(s.capacity(), 40);
    // a second call leaves the capacity alone
    s.move_to_heap(7);
    assert_eq!(s.capacity(), 40);
    assert_eq!(s.as_str(), "tiny");
}

#[test]
fn truncate_on_boundary() {
    let mut s = IString::from("Hello World!");
    s.truncate(5);
    assert_eq!(s.as_str(), "Hello");
    assert!(s.is_inline());
    // beyond the length: unchanged
    s.truncate(99);
    assert_eq!(s.as_str(), "Hello");
}

#[test]
fn push_encodes_characters() {
    let mut s = IString::new();
    s.push('a');
    s.push('\u{e9}');
    s.push('\u{20ac}');
    s.push('\u{1d11e}');
    assert_eq!(s.as_str(), "a\u{e9}\u{20ac}\u{1d11e}");
    assert_eq!(s.len(), 1 + 2 + 3 + 4);
    assert_eq!(
        s.as_bytes(),
        &[0x61, 0xc3, 0xa9, 0xe2, 0x82, 0xac, 0xf0, 0x9d, 0x84, 0x9e]
    );
}

#[test]
fn clone_independence() {
    let original = IString::from("a string that does not fit the inline buffer");
    assert!(!original.is_inline());
    let mut copy = original.clone();
    assert_eq!(copy, original);
    copy.push_str(" with more");
    assert_eq!(original.as_str(), "a string that does not fit the inline buffer");
    assert_ne!(copy.as_str(), original.as_str());

    let mut original = original;
    original.truncate(1);
    assert_eq!(copy.as_str(), "a string that does not fit the inline buffer with more");
}

#[test]
fn clone_drops_capacity_slack() {
    let mut s = IString::with_capacity(100);
    s.push_str("a string that does not fit the inline buffer");
    let c = s.clone();
    assert!(!c.is_inline());
    assert_eq!(c.capacity(), c.len());
    // a short heap-resident value clones inline
    let mut t = IString::from("tiny");
    t.move_to_heap(50);
    let u = t.clone();
    assert!(u.is_inline());
    assert_eq!(u.as_str(), "tiny");
}

#[test]
fn heap_transfer_round_trip() {
    let s = IString::from("a string that does not fit the inline buffer");
    let text = String::from(s.as_str());
    let was_capacity = s.capacity();
    let heap = s.to_heap();
    let r = IString::from_heap(heap);
    assert!(!r.is_inline());
    assert_eq!(r.capacity(), was_capacity);
    assert_eq!(r.as_str(), text.as_str());
}

#[test]
fn inline_transfer_round_trip() {
    let s = IString::from("short stuff");
    let inline = s.to_inline();
    assert!(usize::from(inline.len) <= INLINE_CAPACITY);
    let r = IString::from_inline(inline);
    assert!(r.is_inline());
    assert_eq!(r.as_str(), "short stuff");
}

#[test]
fn string_round_trips() {
    for text in ["", "a", "abcdefghijklmnopqrstuvw", "a string that does not fit the inline buffer"] {
        let s = IString::from(text);
        assert_eq!(s.as_str(), text);
        let back: String = s.into_string();
        assert_eq!(back.as_str(), text);

        let s2 = IString::from_string(back);
        assert_eq!(s2.as_str(), text);

        let bytes = s2.into_bytes();
        assert_eq!(bytes.as_slice(), text.as_bytes());
    }
}

#[test]
fn from_string_adopts_allocations() {
    let s = IString::from_string(String::from("hi"));
    // the donor string had a live allocation, which is adopted as a heap
    // shape even for short content
    assert!(!s.is_inline());
    assert_eq!(s.as_str(), "hi");

    let e = IString::from_string(String::new());
    // no allocation to adopt: the empty inline value
    assert!(e.is_inline());
    assert_eq!(e.len(), 0);
}

#[test]
fn default_is_empty() {
    let s = IString::default();
    assert!(s.is_inline());
    assert_eq!(s.len(), 0);
}

#[test]
fn equality_ignores_shape() {
    let a = IString::from("same text");
    let mut b = IString::from("same text");
    b.move_to_heap(64);
    assert_eq!(a, b);
    let c = IString::from("other text");
    assert_ne!(a, c);
}
