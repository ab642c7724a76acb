//! UTF-8 validation tests: accepted encodings, each rejection kind with
//! its reported position, and the salvage path of the error value.

use istring::IString;

#[test]
fn accepts_valid_encodings() {
    let cases: Vec<Vec<u8>> = vec![
        vec![],
        vec![0x61],
        vec![0xc3, 0xa9],
        vec![0xe2, 0x82, 0xac],
        vec![0xf0, 0x9d, 0x84, 0x9e],
        vec![0x61, 0xc3, 0xa9, 0x62],
        vec![0x7f, 0x00, 0x01],
    ];
    for bytes in cases {
        let expected = String::from_utf8(bytes.clone()).unwrap();
        let s = IString::from_utf8(bytes).unwrap();
        assert_eq!(s.as_str(), expected.as_str());
    }
}

#[test]
fn rejects_with_position() {
    // (bytes, position of the first malformed scalar)
    let cases: Vec<(Vec<u8>, usize)> = vec![
        (vec![0xff], 0),                          // impossible leading byte
        (vec![0x68, 0x69, 0xff], 2),              // after a valid prefix
        (vec![0x80], 0),                          // stray continuation byte
        (vec![0xc3], 0),                          // truncated two-byte scalar
        (vec![0xc0, 0xaf], 0),                    // overlong two-byte form
        (vec![0xc1, 0xbf], 0),                    // overlong two-byte form
        (vec![0xe0, 0x80, 0x80], 0),              // overlong three-byte form
        (vec![0xed, 0xa0, 0x80], 0),              // surrogate range
        (vec![0xe2, 0x82], 0),                    // truncated three-byte scalar
        (vec![0xf0, 0x80, 0x80, 0x80], 0),        // overlong four-byte form
        (vec![0xf4, 0x90, 0x80, 0x80], 0),        // beyond the last scalar
        (vec![0xf5, 0x80, 0x80, 0x80], 0),        // beyond the last scalar
        (vec![0x61, 0xc3, 0xa9, 0xe2, 0x82, 0x61], 3),  // bad continuation
    ];
    for (bytes, position) in cases {
        // agree with the std validator byte for byte
        let std_err = String::from_utf8(bytes.clone()).unwrap_err();
        assert_eq!(std_err.utf8_error().valid_up_to(), position);

        let err = IString::from_utf8(bytes.clone()).unwrap_err();
        assert_eq!(err.utf8_error().valid_up_to(), position);
        assert_eq!(err.as_bytes(), bytes.as_slice());
        assert_eq!(err.into_bytes(), bytes);
    }
}

#[test]
fn error_value_salvages_input() {
    let bytes = vec![0x48, 0x69, 0x80, 0x21];
    let err = IString::from_utf8(bytes).unwrap_err();
    let salvaged = err.into_bytes();
    assert_eq!(salvaged, vec![0x48, 0x69, 0x80, 0x21]);
    // the valid prefix can be taken and re-validated
    let s = IString::from_utf8(salvaged[..2].to_vec()).unwrap();
    assert_eq!(s.as_str(), "Hi");
}
