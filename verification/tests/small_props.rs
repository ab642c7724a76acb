//! Scenario tests for the compact variant.

use istring::small::INLINE_CAPACITY;
use istring::SmallString;

#[test]
fn small_shapes() {
    let s = SmallString::new("short");
    assert!(s.is_inline());
    assert_eq!(s.len(), 5);
    assert_eq!(s.as_str(), "short");

    let max = "abcdefghijklmno";
    assert_eq!(max.len(), INLINE_CAPACITY);
    let m = SmallString::new(max);
    assert!(m.is_inline());
    assert_eq!(m.as_str(), max);

    let l = SmallString::new("just over the limit");
    assert!(!l.is_inline());
    assert_eq!(l.as_str(), "just over the limit");
}

#[test]
fn small_round_trips() {
    for text in ["", "a", "abcdefghijklmno", "a longer piece of text"] {
        let s = SmallString::new(text);
        assert_eq!(s.as_str(), text);
        assert_eq!(s.as_bytes(), text.as_bytes());
        let back: String = s.into_string();
        assert_eq!(back.as_str(), text);
        let s2 = SmallString::from_string(back);
        assert_eq!(s2.as_str(), text);
        let bytes = s2.into_bytes();
        assert_eq!(bytes.as_slice(), text.as_bytes());
    }
}

#[test]
fn small_clone_keeps_shape_and_is_independent() {
    let a = SmallString::new("a longer piece of text");
    assert!(!a.is_inline());
    let b = a.clone();
    assert!(!b.is_inline());
    assert_eq!(a, b);
    drop(a);
    assert_eq!(b.as_str(), "a longer piece of text");

    let c = SmallString::new("tiny");
    let d = c.clone();
    assert!(d.is_inline());
    assert_eq!(c, d);
}

#[test]
fn small_heap_transfer_round_trip() {
    let s = SmallString::new("a longer piece of text");
    let heap = s.to_heap();
    let r = SmallString::from_heap(heap);
    assert!(!r.is_inline());
    assert_eq!(r.as_str(), "a longer piece of text");
}

#[test]
fn small_inline_transfer_round_trip() {
    let s = SmallString::new("tiny");
    let inline = s.to_inline();
    assert!(usize::from(inline.len) <= INLINE_CAPACITY);
    let r = SmallString::from_inline(inline);
    assert!(r.is_inline());
    assert_eq!(r.as_str(), "tiny");
}

#[test]
fn small_from_utf8() {
    let ok = SmallString::from_utf8(vec![0x68, 0x69]).unwrap();
    assert_eq!(ok.as_str(), "hi");

    let err = SmallString::from_utf8(vec![0x68, 0xff]).unwrap_err();
    assert_eq!(err.utf8_error().valid_up_to(), 1);
    assert_eq!(err.into_bytes(), vec![0x68, 0xff]);
}
