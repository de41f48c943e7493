use rustide::document::{Document, EditorError};
use rustide::encoding::{choose_legacy, decode_bytes, encode_text, TextEncoding, TextEncodingHint};
use std::path::PathBuf;

#[test]
fn utf8_bom_is_stripped_and_restored() {
    let mut bytes = vec![0xEF, 0xBB, 0xBF];
    bytes.extend_from_slice("héllo, wörld".as_bytes());
    for hint in [
        TextEncodingHint::Auto,
        TextEncodingHint::Utf8,
        TextEncodingHint::Utf16Le,
        TextEncodingHint::Gbk,
        TextEncodingHint::Big5,
    ] {
        let (text, encoding) = decode_bytes(&bytes, hint);
        assert_eq!(text, "héllo, wörld");
        assert_eq!(encoding, TextEncoding::Utf8Bom);
    }
    let out = encode_text("héllo, wörld", TextEncoding::Utf8Bom);
    assert_eq!(&out[..3], &[0xEF, 0xBB, 0xBF]);
    assert_eq!(out, bytes);
}

#[test]
fn plain_utf8_is_detected_without_a_hint() {
    let (text, encoding) = decode_bytes("日本語 text".as_bytes(), TextEncodingHint::Auto);
    assert_eq!(text, "日本語 text");
    assert_eq!(encoding, TextEncoding::Utf8);
    assert_eq!(encode_text("日本語 text", TextEncoding::Utf8), "日本語 text".as_bytes());
}

#[test]
fn empty_input_is_empty_utf8() {
    let (text, encoding) = decode_bytes(&[], TextEncodingHint::Auto);
    assert_eq!(text, "");
    assert_eq!(encoding, TextEncoding::Utf8);
    assert_eq!(encode_text("", TextEncoding::Utf8), Vec::<u8>::new());
    assert_eq!(encode_text("", TextEncoding::Utf8Bom), vec![0xEF, 0xBB, 0xBF]);
    assert_eq!(encode_text("", TextEncoding::Utf16Le), vec![0xFF, 0xFE]);
    assert_eq!(encode_text("", TextEncoding::Utf16Be), vec![0xFE, 0xFF]);
}

#[test]
fn explicit_utf8_hint_replaces_invalid_bytes() {
    let (text, encoding) = decode_bytes(&[b'a', 0xC3, b'b'], TextEncodingHint::Utf8);
    assert_eq!(text, "a\u{FFFD}b");
    assert_eq!(encoding, TextEncoding::Utf8);
}

#[test]
fn utf16_little_endian_bytes() {
    let bytes = encode_text("aé\u{1F600}", TextEncoding::Utf16Le);
    assert_eq!(
        bytes,
        vec![0xFF, 0xFE, 0x61, 0x00, 0xE9, 0x00, 0x3D, 0xD8, 0x00, 0xDE]
    );
    let (text, encoding) = decode_bytes(&bytes, TextEncodingHint::Auto);
    assert_eq!(text, "aé\u{1F600}");
    assert_eq!(encoding, TextEncoding::Utf16Le);
}

#[test]
fn utf16_big_endian_bytes() {
    let bytes = encode_text("aé\u{1F600}", TextEncoding::Utf16Be);
    assert_eq!(
        bytes,
        vec![0xFE, 0xFF, 0x00, 0x61, 0x00, 0xE9, 0xD8, 0x3D, 0xDE, 0x00]
    );
    let (text, encoding) = decode_bytes(&bytes, TextEncodingHint::Utf8);
    assert_eq!(text, "aé\u{1F600}");
    assert_eq!(encoding, TextEncoding::Utf16Be);
}

#[test]
fn utf16_hint_without_a_mark() {
    let (text, encoding) = decode_bytes(&[0x68, 0x00, 0x69, 0x00], TextEncodingHint::Utf16Le);
    assert_eq!(text, "hi");
    assert_eq!(encoding, TextEncoding::Utf16Le);
    let (text, encoding) = decode_bytes(&[0x00, 0x68, 0x00, 0x69], TextEncodingHint::Utf16Be);
    assert_eq!(text, "hi");
    assert_eq!(encoding, TextEncoding::Utf16Be);
}

#[test]
fn gbk_round_trip() {
    let bytes = encode_text("中文", TextEncoding::Gbk);
    assert_eq!(bytes, vec![0xD6, 0xD0, 0xCE, 0xC4]);
    let (text, encoding) = decode_bytes(&bytes, TextEncodingHint::Gbk);
    assert_eq!(text, "中文");
    assert_eq!(encoding, TextEncoding::Gbk);
}

#[test]
fn big5_round_trip() {
    let bytes = encode_text("中文", TextEncoding::Big5);
    assert_eq!(bytes, vec![0xA4, 0xA4, 0xA4, 0xE5]);
    let (text, encoding) = decode_bytes(&bytes, TextEncodingHint::Big5);
    assert_eq!(text, "中文");
    assert_eq!(encoding, TextEncoding::Big5);
}

#[test]
fn bytes_that_are_not_utf8_fall_back_to_a_legacy_encoding() {
    // Valid in both legacy encodings: the first of the two is taken.
    let (text, encoding) = decode_bytes(&[0xD6, 0xD0, 0xCE, 0xC4], TextEncodingHint::Auto);
    assert_eq!(encoding, TextEncoding::Gbk);
    assert_eq!(text, "中文");
    // Invalid in both: the first of the two is taken as well.
    let (_, encoding) = decode_bytes(&[0xFF, 0xFF, 0xFF], TextEncodingHint::Auto);
    assert_eq!(encoding, TextEncoding::Gbk);
}

#[test]
fn legacy_choice_prefers_the_decoding_without_errors() {
    let gbk = || ("g".to_string(), false);
    let gbk_bad = || ("g".to_string(), true);
    let big5 = || ("b".to_string(), false);
    let big5_bad = || ("b".to_string(), true);
    assert_eq!(choose_legacy(gbk(), big5()), ("g".to_string(), TextEncoding::Gbk));
    assert_eq!(choose_legacy(gbk(), big5_bad()), ("g".to_string(), TextEncoding::Gbk));
    assert_eq!(choose_legacy(gbk_bad(), big5()), ("b".to_string(), TextEncoding::Big5));
    assert_eq!(choose_legacy(gbk_bad(), big5_bad()), ("g".to_string(), TextEncoding::Gbk));
}

#[test]
fn unmappable_characters_are_replaced_on_encode() {
    let bytes = encode_text("a\u{1F600}", TextEncoding::Big5);
    assert_eq!(bytes, b"a&#128512;".to_vec());
}

#[test]
fn document_from_bytes() {
    let doc = Document::load(PathBuf::from("notes.txt"), "ab\r\ncdefg\nhi\n".as_bytes());
    assert_eq!(doc.path, Some(PathBuf::from("notes.txt")));
    assert_eq!(doc.encoding, TextEncoding::Utf8);
    assert_eq!(doc.max_line_chars, 5);
    assert_eq!(doc.editor.rope().to_string(), "ab\r\ncdefg\nhi\n");
    assert_eq!(doc.editor.version(), 0);
}

#[test]
fn document_with_hint_and_save() {
    let doc = Document::load_with_encoding(
        PathBuf::from("big5.txt"),
        &[0xA4, 0xA4, 0xA4, 0xE5],
        TextEncodingHint::Big5,
    );
    assert_eq!(doc.encoding, TextEncoding::Big5);
    assert_eq!(doc.max_line_chars, 2);
    let bytes = doc.save();
    assert!(matches!(bytes, Ok(ref b) if b == &vec![0xA4, 0xA4, 0xA4, 0xE5]));
}

#[test]
fn document_save_writes_edits_in_its_encoding() {
    let mut bytes = vec![0xEF, 0xBB, 0xBF];
    bytes.extend_from_slice(b"one");
    let mut doc = Document::load(PathBuf::from("a.txt"), &bytes);
    assert_eq!(doc.encoding, TextEncoding::Utf8Bom);
    doc.editor.set_cursor(3, false);
    doc.editor.insert_text(" two");
    let saved = doc.save();
    let mut expected = vec![0xEF, 0xBB, 0xBF];
    expected.extend_from_slice(b"one two");
    assert!(matches!(saved, Ok(ref b) if b == &expected));
}

#[test]
fn empty_document_has_no_path_to_save_to() {
    let doc = Document::empty();
    assert_eq!(doc.path, None);
    assert_eq!(doc.encoding, TextEncoding::Utf8);
    assert_eq!(doc.max_line_chars, 0);
    assert_eq!(doc.editor.rope().len_chars(), 0);
    assert!(matches!(doc.save(), Err(EditorError::MissingPath)));
}

#[test]
fn encoding_hint_names() {
    assert_eq!(TextEncodingHint::from_name("auto"), Some(TextEncodingHint::Auto));
    assert_eq!(TextEncodingHint::from_name("UTF8"), Some(TextEncodingHint::Utf8));
    assert_eq!(TextEncodingHint::from_name("utf-8"), Some(TextEncodingHint::Utf8));
    assert_eq!(TextEncodingHint::from_name("Utf16-LE"), Some(TextEncodingHint::Utf16Le));
    assert_eq!(TextEncodingHint::from_name("utf-16be"), Some(TextEncodingHint::Utf16Be));
    assert_eq!(TextEncodingHint::from_name("GB2312"), Some(TextEncodingHint::Gbk));
    assert_eq!(TextEncodingHint::from_name("cp950"), Some(TextEncodingHint::Big5));
    assert_eq!(TextEncodingHint::from_name("latin1"), None);
    assert_eq!(TextEncodingHint::from_name(" utf8\t\n"), Some(TextEncodingHint::Utf8));
    assert_eq!(TextEncodingHint::from_name("utf 8"), None);
    assert_eq!(TextEncodingHint::from_name("  "), None);
    assert_eq!(TextEncodingHint::from_name(""), None);
    for hint in [
        TextEncodingHint::Auto,
        TextEncodingHint::Utf8,
        TextEncodingHint::Utf16Le,
        TextEncodingHint::Utf16Be,
        TextEncodingHint::Gbk,
        TextEncodingHint::Big5,
    ] {
        assert_eq!(TextEncodingHint::from_name(hint.name()), Some(hint));
    }
    assert_eq!(TextEncodingHint::Utf16Le.name(), "utf-16le");
}

#[test]
fn utf16_text_that_begins_like_a_byte_order_mark_round_trips() {
    for text in ["\u{BBEF}\u{00BF}rest", "\u{FFFE}x", "\u{FEFF}y", "\u{FEFF}"] {
        for encoding in [TextEncoding::Utf16Le, TextEncoding::Utf16Be] {
            let bytes = encode_text(text, encoding);
            for hint in [TextEncodingHint::Auto, TextEncodingHint::Utf8, TextEncodingHint::Gbk] {
                let (decoded, found) = decode_bytes(&bytes, hint);
                assert_eq!(decoded, text);
                assert_eq!(found, encoding);
            }
        }
    }
}

#[test]
fn hinted_legacy_bytes_are_decoded_without_a_second_look_for_a_mark() {
    // No mark of its own at the start: the hint decides, for the whole input.
    let (text, encoding) = decode_bytes(&[0x41, 0x00, 0xFF, 0xFE], TextEncodingHint::Utf16Le);
    assert_eq!(text, "A\u{FEFF}");
    assert_eq!(encoding, TextEncoding::Utf16Le);
}

#[test]
fn a_cloned_document_keeps_path_and_encoding() {
    let doc = Document::load(PathBuf::from("a.txt"), b"one\ntwo");
    let copy = doc.clone();
    assert_eq!(copy.path, doc.path);
    assert_eq!(copy.encoding, doc.encoding);
    assert_eq!(copy.max_line_chars, 3);
    assert_eq!(copy.editor.rope().to_string(), "one\ntwo");
}

#[test]
fn ascii_round_trips_through_the_legacy_encodings() {
    let text = "plain ASCII, line 1\r\nline 2\t{}~";
    for (encoding, hint) in [
        (TextEncoding::Gbk, TextEncodingHint::Gbk),
        (TextEncoding::Big5, TextEncodingHint::Big5),
    ] {
        let bytes = encode_text(text, encoding);
        assert_eq!(bytes, text.as_bytes());
        assert_eq!(decode_bytes(&bytes, hint), (text.to_string(), encoding));
    }
}

#[test]
fn utf8_round_trips_without_a_mark() {
    for text in ["", "a", "\u{FFFD}start", "zß水\u{1F600}"] {
        let bytes = encode_text(text, TextEncoding::Utf8);
        for hint in [TextEncodingHint::Auto, TextEncodingHint::Utf8] {
            assert_eq!(decode_bytes(&bytes, hint), (text.to_string(), TextEncoding::Utf8));
        }
    }
    // A text that begins with U+FEFF is read back as marked UTF-8.
    let bytes = encode_text("\u{FEFF}x", TextEncoding::Utf8);
    assert_eq!(
        decode_bytes(&bytes, TextEncodingHint::Auto),
        ("x".to_string(), TextEncoding::Utf8Bom)
    );
}

#[test]
fn encoding_hint_from_str() {
    assert_eq!("utf-8".parse::<TextEncodingHint>(), Ok(TextEncodingHint::Utf8));
    assert_eq!(" GBK ".parse::<TextEncodingHint>(), Ok(TextEncodingHint::Gbk));
    assert_eq!("auto".parse::<TextEncodingHint>(), Ok(TextEncodingHint::Auto));
    assert_eq!("latin1".parse::<TextEncodingHint>(), Err(()));
}
