use win_keyring::{encode_password, extract_password, from_wstr, to_wstr, to_wstr_no_null, ErrorCode};

#[test]
fn encodes_ascii_as_little_endian_units() {
    assert_eq!(encode_password("ab"), vec![0x61, 0x00, 0x62, 0x00]);
}

#[test]
fn encodes_non_ascii_and_surrogate_pairs() {
    // U+20AC is one unit; U+1D11E is the surrogate pair D834 DD1E.
    assert_eq!(encode_password("\u{20ac}"), vec![0xAC, 0x20]);
    assert_eq!(encode_password("\u{1d11e}"), vec![0x34, 0xD8, 0x1E, 0xDD]);
}

#[test]
fn encodes_empty_secret_as_empty_blob() {
    assert_eq!(encode_password(""), Vec::<u8>::new());
    assert_eq!(extract_password(&[]).unwrap(), "");
}

#[test]
fn decodes_known_blob() {
    assert_eq!(extract_password(&[0x61, 0x00, 0xAC, 0x20]).unwrap(), "a\u{20ac}");
    assert_eq!(extract_password(&[0x34, 0xD8, 0x1E, 0xDD]).unwrap(), "\u{1d11e}");
}

#[test]
fn decode_of_encode_round_trips() {
    for text in ["", "x", "test ascii password", "このきれいな花は桜です", "a\u{1d11e}b\u{0}c"] {
        assert_eq!(extract_password(&encode_password(text)).unwrap(), text);
    }
}

#[test]
fn odd_length_blob_is_bad_encoding_with_same_bytes() {
    let blob = vec![0x61, 0x00, 0x62];
    match extract_password(&blob) {
        Err(ErrorCode::BadEncoding(bytes)) => assert_eq!(bytes, blob),
        other => panic!("unexpected: {:?}", other),
    }
}

#[test]
fn lone_surrogate_is_bad_encoding_with_same_bytes() {
    let blob = vec![0x00, 0xD8, 0x61, 0x00];
    match extract_password(&blob) {
        Err(ErrorCode::BadEncoding(bytes)) => assert_eq!(bytes, blob),
        other => panic!("unexpected: {:?}", other),
    }
}

#[test]
fn wide_strings_with_and_without_terminator() {
    assert_eq!(to_wstr("h\u{e9}"), vec![0x68, 0xE9, 0]);
    assert_eq!(to_wstr_no_null("h\u{e9}"), vec![0x68, 0xE9]);
    assert_eq!(to_wstr(""), vec![0]);
    assert_eq!(to_wstr_no_null("\u{1d11e}"), vec![0xD834, 0xDD1E]);
}

#[test]
fn from_wstr_stops_at_the_terminator() {
    assert_eq!(from_wstr(&[0x68, 0x69, 0, 0x6A]), "hi");
    assert_eq!(from_wstr(&[0x68, 0x69]), "hi");
    assert_eq!(from_wstr(&[]), "");
    assert_eq!(from_wstr(&[0xD834, 0xDD1E, 0]), "\u{1d11e}");
}

#[test]
fn from_wstr_replaces_invalid_units() {
    assert_eq!(from_wstr(&[0x61, 0xD800, 0]), "a\u{fffd}");
}

#[test]
fn from_wstr_reads_back_to_wstr() {
    for text in ["", "target", "このきれいな花は桜です", "\u{1d11e}x"] {
        assert_eq!(from_wstr(&to_wstr(text)), text);
    }
}
