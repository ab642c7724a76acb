//! Layout tests: the discriminant byte of an inline-tagged value, read as
//! the heap length word, must fall outside the admissible heap range.

use istring::layout;

#[test]
fn istring_test_layout() {
    // an empty inline value carries the bare discriminant tag; read at the
    // heap shape's length-word position it must exceed MAX_CAPACITY
    assert_eq!(layout::MAX_CAPACITY as u64, layout::LEN_WORD_MAX);
    let word = layout::heap_len_word(layout::IS_INLINE);
    assert_eq!(word, layout::MAX_CAPACITY as u64 + 1);
}

#[test]
fn small_test_layout() {
    // the compact variant shares the tag byte and the same bound
    let word = layout::heap_len_word(layout::IS_INLINE);
    assert_eq!(word, layout::MAX_CAPACITY as u64 + 1);
}
