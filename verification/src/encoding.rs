//! The text encodings that a document can be read from and written in, and
//! the conversion between bytes and text for each of them.

use crate::codec::{
    legacy_decode, legacy_decoding, legacy_encode, legacy_encoding, lossy_utf8, utf8_lossy,
    utf8_strict,
};
use crate::strings::{ascii_lowercase, lowercase_is, trim, trimmed};
use vstd::prelude::*;
use vstd::slice::slice_subrange;
use vstd::std_specs::iter::IteratorSpec;
use vstd::string::*;
use vstd::utf8::{
    char_is_scalar, char_u32_cast, decode_utf8, encode_scalar, encode_utf8,
    encode_utf8_decode_utf8, encode_utf8_valid_utf8, has_width_1_encoding, has_width_2_encoding,
    has_width_3_encoding, is_ascii_chars, is_ascii_chars_encode_utf8, is_ascii_chars_nat_bound,
    last_continuation_byte, leading_byte_width_1, leading_byte_width_2,
    leading_byte_width_3, leading_byte_width_4, second_last_continuation_byte, valid_utf8,
};

verus! {

/// What the caller knows of the encoding of bytes to be decoded.
#[derive(Debug, Clone, Copy, PartialEq, Eq, Structural)]
pub enum TextEncodingHint {
    Auto,
    Utf8,
    Utf16Le,
    Utf16Be,
    Gbk,
    Big5,
}

/// The encoding that a text was decoded from, and is encoded in again.
#[derive(Debug, Clone, Copy, PartialEq, Eq, Structural)]
pub enum TextEncoding {
    Utf8,
    Utf8Bom,
    Utf16Le,
    Utf16Be,
    Gbk,
    Big5,
}

/// The hint that the name `name` stands for, upper and lower case taken
/// alike and white space around the name left aside.
pub open spec fn hint_of_name(name: Seq<char>) -> Option<TextEncodingHint> {
    let name = ascii_lowercase(trimmed(name));
    if name == "auto"@ {
        Some(TextEncodingHint::Auto)
    } else if name == "utf8"@ || name == "utf-8"@ {
        Some(TextEncodingHint::Utf8)
    } else if name == "utf16le"@ || name == "utf-16le"@ || name == "utf16-le"@ {
        Some(TextEncodingHint::Utf16Le)
    } else if name == "utf16be"@ || name == "utf-16be"@ || name == "utf16-be"@ {
        Some(TextEncodingHint::Utf16Be)
    } else if name == "gbk"@ || name == "gb2312"@ || name == "cp936"@ {
        Some(TextEncodingHint::Gbk)
    } else if name == "big5"@ || name == "big-5"@ || name == "cp950"@ {
        Some(TextEncodingHint::Big5)
    } else {
        None
    }
}

impl std::str::FromStr for TextEncodingHint {
    type Err = ();

    fn from_str(s: &str) -> (r: Result<Self, ()>) {
        match Self::from_name(s) {
            Some(hint) => Ok(hint),
            None => Err(()),
        }
    }
}

impl TextEncodingHint {
    /// The name that the hint is written as.
    pub open spec fn name_of(self) -> Seq<char> {
        match self {
            TextEncodingHint::Auto => "auto"@,
            TextEncodingHint::Utf8 => "utf-8"@,
            TextEncodingHint::Utf16Le => "utf-16le"@,
            TextEncodingHint::Utf16Be => "utf-16be"@,
            TextEncodingHint::Gbk => "gbk"@,
            TextEncodingHint::Big5 => "big5"@,
        }
    }

    /// The hint that `name` stands for, if it is the name of one.
    pub fn from_name(name: &str) -> (hint: Option<Self>)
        ensures
            hint == hint_of_name(name@),
    {
        let name = trim(name);
        if lowercase_is(name, "auto") {
            Some(Self::Auto)
        } else if lowercase_is(name, "utf8") || lowercase_is(name, "utf-8") {
            Some(Self::Utf8)
        } else if lowercase_is(name, "utf16le") || lowercase_is(name, "utf-16le") || lowercase_is(
            name,
            "utf16-le",
        ) {
            Some(Self::Utf16Le)
        } else if lowercase_is(name, "utf16be") || lowercase_is(name, "utf-16be") || lowercase_is(
            name,
            "utf16-be",
        ) {
            Some(Self::Utf16Be)
        } else if lowercase_is(name, "gbk") || lowercase_is(name, "gb2312") || lowercase_is(
            name,
            "cp936",
        ) {
            Some(Self::Gbk)
        } else if lowercase_is(name, "big5") || lowercase_is(name, "big-5") || lowercase_is(
            name,
            "cp950",
        ) {
            Some(Self::Big5)
        } else {
            None
        }
    }

    /// The name that the hint is written as.
    pub fn name(&self) -> (name: &'static str)
        ensures
            name@ == self.name_of(),
    {
        match self {
            Self::Auto => "auto",
            Self::Utf8 => "utf-8",
            Self::Utf16Le => "utf-16le",
            Self::Utf16Be => "utf-16be",
            Self::Gbk => "gbk",
            Self::Big5 => "big5",
        }
    }
}

/// The byte order mark of UTF-8.
pub open spec fn utf8_bom() -> Seq<u8> {
    seq![0xEFu8, 0xBBu8, 0xBFu8]
}

/// The byte order mark of UTF-16, little endian.
pub open spec fn utf16le_bom() -> Seq<u8> {
    seq![0xFFu8, 0xFEu8]
}

/// The byte order mark of UTF-16, big endian.
pub open spec fn utf16be_bom() -> Seq<u8> {
    seq![0xFEu8, 0xFFu8]
}

/// `bytes` begins with `prefix`.
pub open spec fn has_prefix(bytes: Seq<u8>, prefix: Seq<u8>) -> bool {
    prefix.len() <= bytes.len() && bytes.take(prefix.len() as int) == prefix
}

/// The text that `bytes` decode to as UTF-8: what they encode where they are
/// valid, and else what lossy decoding makes of them.
pub open spec fn utf8_text(bytes: Seq<u8>) -> Seq<char> {
    if valid_utf8(bytes) {
        decode_utf8(bytes)
    } else {
        lossy_utf8(bytes)
    }
}

/// Which of the two legacy double-byte encodings is taken for bytes that are
/// not UTF-8: the one that decodes them without an invalid sequence, and the
/// first of the two, GBK, where both do or neither does.
pub open spec fn legacy_choice(gbk_errors: bool, big5_errors: bool) -> TextEncoding {
    if gbk_errors && !big5_errors {
        TextEncoding::Big5
    } else {
        TextEncoding::Gbk
    }
}

/// Whether decoding `bytes` under `hint` goes through the decoder of UTF-16
/// or of a legacy encoding: whether the bytes begin with a byte order mark
/// of UTF-16, or have none and are hinted at as other than UTF-8, or are
/// not UTF-8 and not hinted at.
pub open spec fn uses_decoder(bytes: Seq<u8>, hint: TextEncodingHint) -> bool {
    !has_prefix(bytes, utf8_bom()) && (has_prefix(bytes, utf16le_bom()) || has_prefix(
        bytes,
        utf16be_bom(),
    ) || match hint {
        TextEncodingHint::Utf8 => false,
        TextEncodingHint::Auto => !valid_utf8(bytes),
        _ => true,
    })
}

/// Whether encoding in `encoding` goes through the encoder of a legacy
/// encoding.
pub open spec fn uses_encoder(encoding: TextEncoding) -> bool {
    encoding == TextEncoding::Gbk || encoding == TextEncoding::Big5
}

/// The text and the encoding that `bytes` decode to under `hint`. A byte
/// order mark decides before any hint and is left out of the text; then a
/// hint other than `Auto` decides; then bytes that are valid UTF-8 are
/// UTF-8; what is left is one of the two legacy encodings.
pub open spec fn decoded_bytes(bytes: Seq<u8>, hint: TextEncodingHint) -> (Seq<char>, TextEncoding) {
    if has_prefix(bytes, utf8_bom()) {
        (utf8_text(bytes.skip(3)), TextEncoding::Utf8Bom)
    } else if has_prefix(bytes, utf16le_bom()) {
        (utf16_text(bytes.skip(2), false), TextEncoding::Utf16Le)
    } else if has_prefix(bytes, utf16be_bom()) {
        (utf16_text(bytes.skip(2), true), TextEncoding::Utf16Be)
    } else {
        match hint {
            TextEncodingHint::Utf8 => (utf8_text(bytes), TextEncoding::Utf8),
            TextEncodingHint::Utf16Le => (utf16_text(bytes, false), TextEncoding::Utf16Le),
            TextEncodingHint::Utf16Be => (utf16_text(bytes, true), TextEncoding::Utf16Be),
            TextEncodingHint::Gbk => (legacy_text(TextEncoding::Gbk, bytes), TextEncoding::Gbk),
            TextEncodingHint::Big5 => (legacy_text(TextEncoding::Big5, bytes), TextEncoding::Big5),
            TextEncodingHint::Auto => if valid_utf8(bytes) {
                (utf8_text(bytes), TextEncoding::Utf8)
            } else {
                let gbk = legacy_decoding(TextEncoding::Gbk, bytes);
                let big5 = legacy_decoding(TextEncoding::Big5, bytes);
                match legacy_choice(gbk.1, big5.1) {
                    TextEncoding::Big5 => (big5.0, TextEncoding::Big5),
                    _ => (gbk.0, TextEncoding::Gbk),
                }
            },
        }
    }
}

/// The two bytes of one UTF-16 code unit.
pub open spec fn utf16_unit_bytes(unit: int, big_endian: bool) -> Seq<u8> {
    if big_endian {
        seq![(unit / 256) as u8, (unit % 256) as u8]
    } else {
        seq![(unit % 256) as u8, (unit / 256) as u8]
    }
}

/// The bytes of one character in UTF-16: one code unit, or a surrogate pair
/// for a character beyond the basic plane.
pub open spec fn utf16_char_bytes(c: char, big_endian: bool) -> Seq<u8> {
    let v = (c as u32) as int;
    if v < 0x10000 {
        utf16_unit_bytes(v, big_endian)
    } else {
        utf16_unit_bytes(0xD800 + (v - 0x10000) / 0x400, big_endian) + utf16_unit_bytes(
            0xDC00 + (v - 0x10000) % 0x400,
            big_endian,
        )
    }
}

/// `text` in UTF-16 without a byte order mark.
pub open spec fn encode_utf16(text: Seq<char>, big_endian: bool) -> Seq<u8>
    decreases text.len(),
{
    if text.len() == 0 {
        seq![]
    } else {
        encode_utf16(text.drop_last(), big_endian) + utf16_char_bytes(text.last(), big_endian)
    }
}

/// Every byte is one of ASCII.
pub open spec fn is_ascii_bytes(bytes: Seq<u8>) -> bool {
    forall|i: int| 0 <= i < bytes.len() ==> #[trigger] bytes[i] < 0x80
}

/// The text that `bytes` decode to in one of the two legacy encodings: the
/// text that they are in ASCII, where they are all ASCII, and else what the
/// decoder makes of them.
pub open spec fn legacy_text(encoding: TextEncoding, bytes: Seq<u8>) -> Seq<char> {
    if is_ascii_bytes(bytes) {
        decode_utf8(bytes)
    } else {
        legacy_decoding(encoding, bytes).0
    }
}

/// The bytes that `text` is written as in one of the two legacy encodings:
/// its bytes in ASCII, where it is all ASCII, and else what the encoder
/// makes of it.
pub open spec fn legacy_bytes(encoding: TextEncoding, text: Seq<char>) -> Seq<u8> {
    if is_ascii_chars(text) {
        encode_utf8(text)
    } else {
        legacy_encoding(encoding, text)
    }
}

/// The encoding that stands for UTF-16 in the given byte order.
pub open spec fn utf16_encoding(big_endian: bool) -> TextEncoding {
    if big_endian {
        TextEncoding::Utf16Be
    } else {
        TextEncoding::Utf16Le
    }
}

/// The text that `bytes` decode to as UTF-16 without a byte order mark: the
/// text that they are the UTF-16 form of, where they are that of one, and
/// else what the decoder makes of them.
pub open spec fn utf16_text(bytes: Seq<u8>, big_endian: bool) -> Seq<char> {
    if exists|text: Seq<char>| #[trigger] encode_utf16(text, big_endian) == bytes {
        choose|text: Seq<char>| #[trigger] encode_utf16(text, big_endian) == bytes
    } else {
        legacy_decoding(utf16_encoding(big_endian), bytes).0
    }
}

/// The bytes that `text` is written as in `encoding`. The encodings that
/// are told by a byte order mark begin with it.
pub open spec fn encoded_text(text: Seq<char>, encoding: TextEncoding) -> Seq<u8> {
    match encoding {
        TextEncoding::Utf8 => encode_utf8(text),
        TextEncoding::Utf8Bom => utf8_bom() + encode_utf8(text),
        TextEncoding::Utf16Le => utf16le_bom() + encode_utf16(text, false),
        TextEncoding::Utf16Be => utf16be_bom() + encode_utf16(text, true),
        TextEncoding::Gbk => legacy_bytes(TextEncoding::Gbk, text),
        TextEncoding::Big5 => legacy_bytes(TextEncoding::Big5, text),
    }
}

/// Whether `bytes` begin with the three bytes of the UTF-8 byte order mark.
fn starts_with_utf8_bom(bytes: &[u8]) -> (b: bool)
    ensures
        b == has_prefix(bytes@, utf8_bom()),
{
    let b = bytes.len() >= 3 && bytes[0] == 0xEF && bytes[1] == 0xBB && bytes[2] == 0xBF;
    proof {
        if b {
            assert(bytes@.take(3) =~= utf8_bom());
        } else if bytes.len() >= 3 {
            assert(bytes@.take(3)[0] == bytes@[0]);
            assert(bytes@.take(3)[1] == bytes@[1]);
            assert(bytes@.take(3)[2] == bytes@[2]);
        }
    }
    b
}

/// Whether `bytes` begin with the two bytes `first` and `second`.
fn starts_with_pair(bytes: &[u8], first: u8, second: u8) -> (b: bool)
    ensures
        b == has_prefix(bytes@, seq![first, second]),
{
    let b = bytes.len() >= 2 && bytes[0] == first && bytes[1] == second;
    proof {
        if b {
            assert(bytes@.take(2) =~= seq![first, second]);
        } else if bytes.len() >= 2 {
            assert(bytes@.take(2)[0] == bytes@[0]);
            assert(bytes@.take(2)[1] == bytes@[1]);
        }
    }
    b
}

/// Picks between the decodings of the same bytes as GBK and as Big5, each
/// given with whether it met an invalid sequence.
pub fn choose_legacy(gbk: (String, bool), big5: (String, bool)) -> (r: (String, TextEncoding))
    ensures
        r.1 == legacy_choice(gbk.1, big5.1),
        r.1 == TextEncoding::Gbk ==> r.0 == gbk.0,
        r.1 == TextEncoding::Big5 ==> r.0 == big5.0,
{
    if gbk.1 && !big5.1 {
        (big5.0, TextEncoding::Big5)
    } else {
        (gbk.0, TextEncoding::Gbk)
    }
}

/// Decodes `bytes` to text, and tells the encoding that they were in. Bytes
/// that go to the decoder of UTF-16 or of a legacy encoding must leave it
/// room for its buffer.
pub fn decode_bytes(bytes: &[u8], hint: TextEncodingHint) -> (r: (String, TextEncoding))
    requires
        uses_decoder(bytes@, hint) ==> bytes@.len() <= usize::MAX / 8,
    ensures
        r.0@ == decoded_bytes(bytes@, hint).0,
        r.1 == decoded_bytes(bytes@, hint).1,
{
    let len = bytes.len();
    if starts_with_utf8_bom(bytes) {
        let rest = slice_subrange(bytes, 3, len);
        assert(rest@ =~= bytes@.skip(3));
        return (utf8_lossy(rest), TextEncoding::Utf8Bom);
    }
    if starts_with_pair(bytes, 0xFF, 0xFE) {
        let rest = slice_subrange(bytes, 2, len);
        assert(rest@ =~= bytes@.skip(2));
        return (legacy_decode(TextEncoding::Utf16Le, rest).0, TextEncoding::Utf16Le);
    }
    if starts_with_pair(bytes, 0xFE, 0xFF) {
        let rest = slice_subrange(bytes, 2, len);
        assert(rest@ =~= bytes@.skip(2));
        return (legacy_decode(TextEncoding::Utf16Be, rest).0, TextEncoding::Utf16Be);
    }
    match hint {
        TextEncodingHint::Utf8 => {
            return (utf8_lossy(bytes), TextEncoding::Utf8);
        },
        TextEncodingHint::Utf16Le => {
            return (legacy_decode(TextEncoding::Utf16Le, bytes).0, TextEncoding::Utf16Le);
        },
        TextEncodingHint::Utf16Be => {
            return (legacy_decode(TextEncoding::Utf16Be, bytes).0, TextEncoding::Utf16Be);
        },
        TextEncodingHint::Gbk => {
            return (legacy_decode(TextEncoding::Gbk, bytes).0, TextEncoding::Gbk);
        },
        TextEncodingHint::Big5 => {
            return (legacy_decode(TextEncoding::Big5, bytes).0, TextEncoding::Big5);
        },
        TextEncodingHint::Auto => {},
    }
    match utf8_strict(bytes) {
        Some(text) => {
            return (text, TextEncoding::Utf8);
        },
        None => {},
    }
    let gbk = legacy_decode(TextEncoding::Gbk, bytes);
    let big5 = legacy_decode(TextEncoding::Big5, bytes);
    choose_legacy(gbk, big5)
}

/// Appends the two bytes of the code unit `unit` to `out`.
fn push_utf16_unit(out: &mut Vec<u8>, unit: u32, big_endian: bool)
    requires
        unit < 0x10000,
    ensures
        final(out)@ == old(out)@ + utf16_unit_bytes(unit as int, big_endian),
{
    let high = (unit / 256) as u8;
    let low = (unit % 256) as u8;
    if big_endian {
        out.push(high);
        out.push(low);
    } else {
        out.push(low);
        out.push(high);
    }
    assert(out@ =~= old(out)@ + utf16_unit_bytes(unit as int, big_endian));
}

/// Appends `text` in UTF-16 to `out`.
fn push_utf16(out: &mut Vec<u8>, text: &str, big_endian: bool)
    ensures
        final(out)@ == old(out)@ + encode_utf16(text@, big_endian),
{
    let mut chars = text.chars();
    let ghost mut done: Seq<char> = Seq::empty();
    assert(chars.remaining() == text@);
    loop
        invariant
            done + chars.remaining() == text@,
            out@ == old(out)@ + encode_utf16(done, big_endian),
        ensures
            out@ == old(out)@ + encode_utf16(text@, big_endian),
        decreases text@.len() - done.len(),
    {
        let ghost before = chars.remaining();
        match chars.next() {
            None => {
                assert(done =~= text@);
                break ;
            },
            Some(c) => {
                let v = c as u32;
                let ghost prior = out@;
                proof {
                    char_is_scalar(c);
                }
                if v < 0x10000 {
                    push_utf16_unit(out, v, big_endian);
                } else {
                    let w = v - 0x10000;
                    push_utf16_unit(out, 0xD800 + w / 0x400, big_endian);
                    push_utf16_unit(out, 0xDC00 + w % 0x400, big_endian);
                }
                assert(out@ =~= prior + utf16_char_bytes(c, big_endian));
                proof {
                    assert(done.push(c).drop_last() =~= done);
                    assert(done.push(c) + chars.remaining() =~= done + before);
                    done = done.push(c);
                }
            },
        }
    }
}

/// Encodes `text` in `encoding`. A text that goes to the encoder of a
/// legacy encoding must leave it room for its buffer.
pub fn encode_text(text: &str, encoding: TextEncoding) -> (out: Vec<u8>)
    requires
        uses_encoder(encoding) ==> encode_utf8(text@).len() <= usize::MAX / 8,
    ensures
        out@ == encoded_text(text@, encoding),
{
    match encoding {
        TextEncoding::Utf8 => text.as_bytes_vec(),
        TextEncoding::Utf8Bom => {
            let mut output: Vec<u8> = Vec::new();
            output.push(0xEF);
            output.push(0xBB);
            output.push(0xBF);
            let mut body = text.as_bytes_vec();
            output.append(&mut body);
            assert(output@ =~= utf8_bom() + encode_utf8(text@));
            output
        },
        TextEncoding::Utf16Le => {
            let mut output: Vec<u8> = Vec::new();
            output.push(0xFF);
            output.push(0xFE);
            assert(output@ =~= utf16le_bom());
            push_utf16(&mut output, text, false);
            output
        },
        TextEncoding::Utf16Be => {
            let mut output: Vec<u8> = Vec::new();
            output.push(0xFE);
            output.push(0xFF);
            assert(output@ =~= utf16be_bom());
            push_utf16(&mut output, text, true);
            output
        },
        TextEncoding::Gbk => legacy_encode(TextEncoding::Gbk, text),
        TextEncoding::Big5 => legacy_encode(TextEncoding::Big5, text),
    }
}

/// Bytes that begin with the byte order mark of UTF-8 and go on as valid
/// UTF-8 decode, under every hint, as UTF-8 with a byte order mark, to the
/// text that the bytes behind the mark encode.
pub proof fn lemma_decode_utf8_bom(rest: Seq<u8>, hint: TextEncodingHint)
    requires
        valid_utf8(rest),
    ensures
        decoded_bytes(utf8_bom() + rest, hint) == (decode_utf8(rest), TextEncoding::Utf8Bom),
{
    let bytes = utf8_bom() + rest;
    assert(bytes.take(3) =~= utf8_bom());
    assert(bytes.skip(3) =~= rest);
}

/// A text encoded as UTF-8 with a byte order mark begins with the three
/// bytes of the mark, goes on with the text in UTF-8, and decodes under
/// every hint to the same text and the same encoding again.
pub proof fn lemma_utf8_bom_round_trip(text: Seq<char>, hint: TextEncodingHint)
    ensures
        encoded_text(text, TextEncoding::Utf8Bom).take(3) == utf8_bom(),
        encoded_text(text, TextEncoding::Utf8Bom).skip(3) == encode_utf8(text),
        decoded_bytes(encoded_text(text, TextEncoding::Utf8Bom), hint) == (
            text,
            TextEncoding::Utf8Bom,
        ),
{
    let bytes = encoded_text(text, TextEncoding::Utf8Bom);
    assert(bytes.take(3) =~= utf8_bom());
    assert(bytes.skip(3) =~= encode_utf8(text));
    encode_utf8_valid_utf8(text);
    encode_utf8_decode_utf8(text);
    lemma_decode_utf8_bom(encode_utf8(text), hint);
}

/// A text encoded in either form of UTF-16 begins with the two bytes of
/// that form's byte order mark, and decodes under every hint as that form.
pub proof fn lemma_utf16_keeps_its_mark(text: Seq<char>, hint: TextEncodingHint)
    ensures
        encoded_text(text, TextEncoding::Utf16Le).take(2) == utf16le_bom(),
        encoded_text(text, TextEncoding::Utf16Be).take(2) == utf16be_bom(),
        decoded_bytes(encoded_text(text, TextEncoding::Utf16Le), hint).1 == TextEncoding::Utf16Le,
        decoded_bytes(encoded_text(text, TextEncoding::Utf16Be), hint).1 == TextEncoding::Utf16Be,
{
    let le = encoded_text(text, TextEncoding::Utf16Le);
    let be = encoded_text(text, TextEncoding::Utf16Be);
    assert(le.take(2) =~= utf16le_bom());
    assert(be.take(2) =~= utf16be_bom());
    assert(le.len() >= 3 ==> le.take(3)[0] == le[0]);
    assert(be.len() >= 3 ==> be.take(3)[0] == be[0]);
    assert(be.take(2)[0] == be[0]);
}

/// The first byte of a character in UTF-8 is neither of the two bytes that
/// the byte order marks of UTF-16 are made of, and the three bytes of the
/// byte order mark of UTF-8 are those of the character U+FEFF alone.
proof fn lemma_leading_byte(c: u32)
    by (bit_vector)
    ensures
        has_width_1_encoding(c) ==> leading_byte_width_1(c) < 0x80u8,
        has_width_2_encoding(c) ==> leading_byte_width_2(c) >= 0xC0u8 && leading_byte_width_2(c)
            <= 0xDFu8,
        has_width_3_encoding(c) ==> leading_byte_width_3(c) >= 0xE0u8 && leading_byte_width_3(c)
            <= 0xEFu8,
        has_width_3_encoding(c) && leading_byte_width_3(c) == 0xEFu8
            && second_last_continuation_byte(c) == 0xBBu8 && last_continuation_byte(c) == 0xBFu8
            ==> c == 0xFEFFu32,
        c <= 0x10FFFFu32 ==> leading_byte_width_4(c) >= 0xF0u8 && leading_byte_width_4(c)
            <= 0xF7u8,
{
}

/// A text that does not begin with the character U+FEFF, encoded as UTF-8
/// without a byte order mark, decodes under the hints for UTF-8 and under
/// no hint to the same text, as UTF-8.
pub proof fn lemma_utf8_round_trip(text: Seq<char>, hint: TextEncodingHint)
    requires
        hint == TextEncodingHint::Auto || hint == TextEncodingHint::Utf8,
        text.len() > 0 ==> text[0] != '\u{FEFF}',
    ensures
        decoded_bytes(encoded_text(text, TextEncoding::Utf8), hint) == (text, TextEncoding::Utf8),
{
    let bytes = encode_utf8(text);
    encode_utf8_valid_utf8(text);
    encode_utf8_decode_utf8(text);
    if text.len() > 0 {
        let c = text[0] as u32;
        let first = encode_scalar(c);
        char_is_scalar(text[0]);
        char_u32_cast(text[0], c);
        lemma_leading_byte(c);
        assert(bytes == first + encode_utf8(text.drop_first()));
        assert(bytes[0] == first[0]);
        assert(bytes.len() >= 2 ==> bytes.take(2)[0] == bytes[0]);
        if bytes.len() >= 3 && bytes.take(3) == utf8_bom() {
            assert(bytes.take(3)[0] == bytes[0]);
            assert(bytes.take(3)[1] == bytes[1]);
            assert(bytes.take(3)[2] == bytes[2]);
            assert(first.len() == 3);
            assert(bytes[1] == first[1]);
            assert(bytes[2] == first[2]);
            assert(c == 0xFEFFu32);
            assert(false);
        }
    } else {
        assert(bytes.len() == 0);
    }
}

/// The code unit that the last two bytes of `bytes` stand for.
pub open spec fn tail_unit(bytes: Seq<u8>, big_endian: bool) -> int {
    let high = if big_endian {
        bytes[bytes.len() - 2]
    } else {
        bytes[bytes.len() - 1]
    };
    let low = if big_endian {
        bytes[bytes.len() - 1]
    } else {
        bytes[bytes.len() - 2]
    };
    high * 256 + low
}

/// The bytes of a character in UTF-16 are two where it lies in the basic
/// plane and four where it does not, and their last code unit is a low
/// surrogate exactly where they are four.
proof fn lemma_utf16_char_bytes(c: char, big_endian: bool)
    ensures
        (c as u32) < 0x10000 ==> utf16_char_bytes(c, big_endian).len() == 2 && tail_unit(
            utf16_char_bytes(c, big_endian),
            big_endian,
        ) == (c as u32) && !(0xDC00 <= (c as u32) <= 0xDFFF),
        (c as u32) >= 0x10000 ==> utf16_char_bytes(c, big_endian).len() == 4 && 0xDC00
            <= tail_unit(utf16_char_bytes(c, big_endian), big_endian) <= 0xDFFF,
{
    char_is_scalar(c);
    let v = (c as u32) as int;
    if v >= 0x10000 {
        let high = 0xD800 + (v - 0x10000) / 0x400;
        let low = 0xDC00 + (v - 0x10000) % 0x400;
        let bytes = utf16_unit_bytes(high, big_endian) + utf16_unit_bytes(low, big_endian);
        assert(bytes.len() == 4);
        assert(bytes[2] == utf16_unit_bytes(low, big_endian)[0]);
        assert(bytes[3] == utf16_unit_bytes(low, big_endian)[1]);
    }
}

/// Two characters with the same bytes in UTF-16 are the same character.
proof fn lemma_utf16_char_injective(a: char, b: char, big_endian: bool)
    requires
        utf16_char_bytes(a, big_endian) == utf16_char_bytes(b, big_endian),
    ensures
        a == b,
{
    char_is_scalar(a);
    char_is_scalar(b);
    lemma_utf16_char_bytes(a, big_endian);
    lemma_utf16_char_bytes(b, big_endian);
    let va = (a as u32) as int;
    let vb = (b as u32) as int;
    let ea = utf16_char_bytes(a, big_endian);
    let eb = utf16_char_bytes(b, big_endian);
    if va >= 0x10000 {
        let wa = va - 0x10000;
        let wb = vb - 0x10000;
        let ha = utf16_unit_bytes(0xD800 + wa / 0x400, big_endian);
        let hb = utf16_unit_bytes(0xD800 + wb / 0x400, big_endian);
        let la = utf16_unit_bytes(0xDC00 + wa % 0x400, big_endian);
        let lb = utf16_unit_bytes(0xDC00 + wb % 0x400, big_endian);
        assert(ea[0] == ha[0] && ea[1] == ha[1] && ea[2] == la[0] && ea[3] == la[1]);
        assert(eb[0] == hb[0] && eb[1] == hb[1] && eb[2] == lb[0] && eb[3] == lb[1]);
        assert(wa / 0x400 == wb / 0x400);
        assert(wa % 0x400 == wb % 0x400);
        assert(wa == wb);
    } else {
        assert(ea[0] == eb[0] && ea[1] == eb[1]);
        assert(va == vb);
    }
    char_u32_cast(a, a as u32);
    char_u32_cast(b, b as u32);
}

/// Two texts with the same bytes in UTF-16 are the same text.
pub proof fn lemma_encode_utf16_injective(a: Seq<char>, b: Seq<char>, big_endian: bool)
    requires
        encode_utf16(a, big_endian) == encode_utf16(b, big_endian),
    ensures
        a == b,
    decreases a.len(),
{
    if a.len() == 0 {
        if b.len() > 0 {
            lemma_utf16_char_bytes(b.last(), big_endian);
            assert(encode_utf16(b, big_endian).len() >= utf16_char_bytes(
                b.last(),
                big_endian,
            ).len());
            assert(encode_utf16(a, big_endian).len() == 0);
        }
        assert(a =~= b);
    } else {
        lemma_utf16_char_bytes(a.last(), big_endian);
        if b.len() == 0 {
            assert(encode_utf16(a, big_endian).len() >= utf16_char_bytes(
                a.last(),
                big_endian,
            ).len());
            assert(encode_utf16(b, big_endian).len() == 0);
        }
        lemma_utf16_char_bytes(b.last(), big_endian);
        let head_a = encode_utf16(a.drop_last(), big_endian);
        let head_b = encode_utf16(b.drop_last(), big_endian);
        let tail_a = utf16_char_bytes(a.last(), big_endian);
        let tail_b = utf16_char_bytes(b.last(), big_endian);
        let all = encode_utf16(a, big_endian);
        assert(all == head_a + tail_a);
        assert(all == head_b + tail_b);
        let n = all.len() as int;
        assert(all[n - 1] == tail_a[tail_a.len() - 1] && all[n - 2] == tail_a[tail_a.len() - 2]);
        assert(all[n - 1] == tail_b[tail_b.len() - 1] && all[n - 2] == tail_b[tail_b.len() - 2]);
        assert(tail_unit(tail_a, big_endian) == tail_unit(tail_b, big_endian));
        assert(tail_a.len() == tail_b.len());
        assert(head_a =~= all.take(n - tail_a.len()));
        assert(head_b =~= all.take(n - tail_b.len()));
        assert(tail_a =~= all.skip(n - tail_a.len()));
        assert(tail_b =~= all.skip(n - tail_b.len()));
        lemma_utf16_char_injective(a.last(), b.last(), big_endian);
        lemma_encode_utf16_injective(a.drop_last(), b.drop_last(), big_endian);
        assert(a =~= a.drop_last().push(a.last()));
        assert(b =~= b.drop_last().push(b.last()));
    }
}

/// A text encoded in either form of UTF-16, with its byte order mark,
/// decodes under every hint to the same text and the same encoding again,
/// whatever the text begins with.
pub proof fn lemma_utf16_round_trip(text: Seq<char>, big_endian: bool, hint: TextEncodingHint)
    ensures
        decoded_bytes(encoded_text(text, utf16_encoding(big_endian)), hint) == (
            text,
            utf16_encoding(big_endian),
        ),
{
    lemma_utf16_keeps_its_mark(text, hint);
    let bytes = encoded_text(text, utf16_encoding(big_endian));
    let body = encode_utf16(text, big_endian);
    assert(bytes.skip(2) =~= body);
    assert(bytes.len() >= 3 ==> bytes.take(3)[0] == bytes[0]);
    assert(bytes.take(2)[0] == bytes[0]);
    assert(bytes.take(2) =~= if big_endian {
        utf16be_bom()
    } else {
        utf16le_bom()
    });
    let found = utf16_text(body, big_endian);
    assert(encode_utf16(found, big_endian) == body);
    lemma_encode_utf16_injective(found, text, big_endian);
}

/// A text of ASCII characters alone, encoded in either of the two legacy
/// encodings, decodes under the hint for that encoding to the same text.
pub proof fn lemma_legacy_ascii_round_trip(text: Seq<char>)
    requires
        is_ascii_chars(text),
    ensures
        decoded_bytes(encoded_text(text, TextEncoding::Gbk), TextEncodingHint::Gbk) == (
            text,
            TextEncoding::Gbk,
        ),
        decoded_bytes(encoded_text(text, TextEncoding::Big5), TextEncodingHint::Big5) == (
            text,
            TextEncoding::Big5,
        ),
{
    let bytes = encode_utf8(text);
    is_ascii_chars_encode_utf8(text);
    is_ascii_chars_nat_bound(text);
    encode_utf8_decode_utf8(text);
    assert forall|i: int| 0 <= i < bytes.len() implies #[trigger] bytes[i] < 0x80 by {
        assert(bytes[i] == text[i] as u8);
    }
    if bytes.len() > 0 {
        assert(bytes.len() >= 3 ==> bytes.take(3)[0] == bytes[0]);
        assert(bytes.len() >= 2 ==> bytes.take(2)[0] == bytes[0]);
    }
}

} // verus!
