//! The decoders and encoders that this library does not hold itself, and what
//! it relies on from each. Nothing in this file is proved.

use crate::encoding::{encode_utf16, is_ascii_bytes, TextEncoding};
use vstd::prelude::*;
use vstd::utf8::{decode_utf8, encode_utf8, is_ascii_chars, valid_utf8};

verus! {

/// The text that `String::from_utf8_lossy` makes of `bytes`: their decoding
/// as UTF-8, with the replacement character in place of each invalid
/// sequence.
pub uninterp spec fn lossy_utf8(bytes: Seq<u8>) -> Seq<char>;

/// The text that `Encoding::decode_without_bom_handling` makes of `bytes` for
/// the given encoding, and whether it met a malformed sequence.
pub uninterp spec fn legacy_decoding(encoding: TextEncoding, bytes: Seq<u8>) -> (Seq<char>, bool);

/// The bytes that `Encoding::encode` makes of `text` for the given encoding.
pub uninterp spec fn legacy_encoding(encoding: TextEncoding, text: Seq<char>) -> Seq<u8>;

/// `String::from_utf8_lossy`: decodes `bytes` as UTF-8 and replaces what is
/// invalid. Valid bytes come out as the text that they encode.
#[verifier::external_body]
pub(crate) fn utf8_lossy(bytes: &[u8]) -> (text: String)
    ensures
        text@ == lossy_utf8(bytes@),
        valid_utf8(bytes@) ==> text@ == decode_utf8(bytes@),
{
    String::from_utf8_lossy(bytes).into_owned()
}

/// `std::str::from_utf8`: the text that `bytes` encode, where they are valid
/// UTF-8, and nothing where they are not.
#[verifier::external_body]
pub(crate) fn utf8_strict(bytes: &[u8]) -> (text: Option<String>)
    ensures
        text is Some <==> valid_utf8(bytes@),
        text is Some ==> text->0@ == decode_utf8(bytes@),
{
    std::str::from_utf8(bytes).ok().map(|text| text.to_string())
}

/// `Encoding::decode_without_bom_handling` of `encoding_rs`, on the encoding
/// that `encoding` stands for: the decoded text, a byte order mark at the
/// start decoded like any other character, and whether a malformed sequence
/// was met. Bytes that are the UTF-16 form of a text, in the byte order of
/// the encoding, come out as that text, and bytes of ASCII alone come out
/// of the two legacy encodings as the text that they are in ASCII. It panics where the size of its
/// buffer, a small multiple of the input's length, does not fit in `usize`.
#[verifier::external_body]
pub(crate) fn legacy_decode(encoding: TextEncoding, bytes: &[u8]) -> (r: (String, bool))
    requires
        bytes@.len() <= usize::MAX / 8,
    ensures
        r.0@ == legacy_decoding(encoding, bytes@).0,
        r.1 == legacy_decoding(encoding, bytes@).1,
        forall|text: Seq<char>|
            encoding == TextEncoding::Utf16Le && #[trigger] encode_utf16(text, false) == bytes@
                ==> r.0@ == text,
        forall|text: Seq<char>|
            encoding == TextEncoding::Utf16Be && #[trigger] encode_utf16(text, true) == bytes@
                ==> r.0@ == text,
        (encoding == TextEncoding::Gbk || encoding == TextEncoding::Big5) && is_ascii_bytes(bytes@)
            ==> r.0@ == decode_utf8(bytes@) && !r.1,
{
    let decoder = match encoding {
        TextEncoding::Utf8 | TextEncoding::Utf8Bom => encoding_rs::UTF_8,
        TextEncoding::Utf16Le => encoding_rs::UTF_16LE,
        TextEncoding::Utf16Be => encoding_rs::UTF_16BE,
        TextEncoding::Gbk => encoding_rs::GBK,
        TextEncoding::Big5 => encoding_rs::BIG5,
    };
    let (text, had_errors) = decoder.decode_without_bom_handling(bytes);
    (text.into_owned(), had_errors)
}

/// `Encoding::encode` of `encoding_rs`, on the encoding that `encoding`
/// stands for: the encoded bytes. A text of ASCII alone comes out of the
/// two legacy encodings as its bytes in ASCII. It panics where the size of
/// its buffer, a small multiple of the input's length, does not fit in
/// `usize`.
#[verifier::external_body]
pub(crate) fn legacy_encode(encoding: TextEncoding, text: &str) -> (bytes: Vec<u8>)
    requires
        encode_utf8(text@).len() <= usize::MAX / 8,
    ensures
        bytes@ == legacy_encoding(encoding, text@),
        (encoding == TextEncoding::Gbk || encoding == TextEncoding::Big5) && is_ascii_chars(text@)
            ==> bytes@ == encode_utf8(text@),
{
    let encoder = match encoding {
        TextEncoding::Utf8 | TextEncoding::Utf8Bom => encoding_rs::UTF_8,
        TextEncoding::Utf16Le => encoding_rs::UTF_16LE,
        TextEncoding::Utf16Be => encoding_rs::UTF_16BE,
        TextEncoding::Gbk => encoding_rs::GBK,
        TextEncoding::Big5 => encoding_rs::BIG5,
    };
    encoder.encode(text).0.into_owned()
}

} // verus!
