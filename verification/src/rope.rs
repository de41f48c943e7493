//! The rope that holds a buffer's text, and what this library relies on from
//! each of its operations. The rope is built to count lines by line feeds
//! only. Nothing in this file is proved: each contract restates the rope's
//! documentation over the sequence of characters that the rope holds.

use crate::text::{byte_len, byte_offset, line_count, line_of, line_start};
use ropey::Rope;
use vstd::prelude::*;
use vstd::string::StringSliceAdditionalSpecFns;
use vstd::utf8::encode_utf8;

verus! {

#[verifier::external_type_specification]
#[verifier::external_body]
pub struct ExRope(ropey::Rope);

/// The characters that a rope holds, in order.
pub uninterp spec fn rope_text(rope: Rope) -> Seq<char>;

/// `Rope::from_str`: a rope that holds exactly the characters of `text`.
#[verifier::external_body]
pub(crate) fn rope_from_str(text: &str) -> (rope: Rope)
    ensures
        rope_text(rope) == text@,
        rope_text(rope).len() <= usize::MAX,
{
    Rope::from_str(text)
}

/// `Rope::clone`: a rope that holds the same characters.
#[verifier::external_body]
pub(crate) fn rope_clone(rope: &Rope) -> (copy: Rope)
    ensures
        copy == *rope,
{
    rope.clone()
}

/// `Rope::len_chars`: the number of characters held.
#[verifier::external_body]
pub(crate) fn rope_len_chars(rope: &Rope) -> (n: usize)
    ensures
        n == rope_text(*rope).len(),
{
    rope.len_chars()
}

/// `Rope::len_bytes`: the length of the text in UTF-8.
#[verifier::external_body]
pub(crate) fn rope_len_bytes(rope: &Rope) -> (n: usize)
    ensures
        n == byte_len(rope_text(*rope)),
{
    rope.len_bytes()
}

/// `Rope::len_lines`: one more than the number of line breaks.
#[verifier::external_body]
pub(crate) fn rope_len_lines(rope: &Rope) -> (n: usize)
    ensures
        n == line_count(rope_text(*rope)),
{
    rope.len_lines()
}

/// `Rope::char`: the character at `idx`. It panics at or behind the end.
#[verifier::external_body]
pub(crate) fn rope_char(rope: &Rope, idx: usize) -> (c: char)
    requires
        idx < rope_text(*rope).len(),
    ensures
        c == rope_text(*rope)[idx as int],
{
    rope.char(idx)
}

/// `Rope::line` and the slice's `len_chars`: the number of characters of
/// line `line`, its line break counted in. `line` panics at or behind the
/// number of lines.
#[verifier::external_body]
pub(crate) fn rope_line_len(rope: &Rope, line: usize) -> (n: usize)
    requires
        line < line_count(rope_text(*rope)),
    ensures
        n == line_start(rope_text(*rope), (line + 1) as nat) - line_start(
            rope_text(*rope),
            line as nat,
        ),
{
    rope.line(line).len_chars()
}

/// `Rope::char_to_line`: the number of line breaks before `idx`, which may
/// be the end of the text. It panics behind the end.
#[verifier::external_body]
pub(crate) fn rope_char_to_line(rope: &Rope, idx: usize) -> (line: usize)
    requires
        idx <= rope_text(*rope).len(),
    ensures
        line == line_of(rope_text(*rope), idx as int),
{
    rope.char_to_line(idx)
}

/// `Rope::line_to_char`: the position of the first character of `line`; for
/// the line one past the last, the end of the text. It panics beyond that.
#[verifier::external_body]
pub(crate) fn rope_line_to_char(rope: &Rope, line: usize) -> (idx: usize)
    requires
        line <= line_count(rope_text(*rope)),
    ensures
        idx == line_start(rope_text(*rope), line as nat),
{
    rope.line_to_char(line)
}

/// `Rope::char_to_byte`: the UTF-8 byte offset of position `idx`, which may
/// be the end of the text. It panics behind the end.
#[verifier::external_body]
pub(crate) fn rope_char_to_byte(rope: &Rope, idx: usize) -> (byte: usize)
    requires
        idx <= rope_text(*rope).len(),
    ensures
        byte == byte_offset(rope_text(*rope), idx as int),
{
    rope.char_to_byte(idx)
}

/// `Rope::slice` and the slice's `to_string`: the characters from `start` to
/// `end` as a string. `slice` panics on a reversed or overlong range.
#[verifier::external_body]
pub(crate) fn rope_slice_string(rope: &Rope, start: usize, end: usize) -> (s: String)
    requires
        start <= end <= rope_text(*rope).len(),
    ensures
        s@ == rope_text(*rope).subrange(start as int, end as int),
{
    rope.slice(start..end).to_string()
}

/// `Rope::insert`: puts `text` in front of position `idx`. The rope counts
/// its characters in a `usize` afterwards as before. It panics where `idx`
/// lies behind the end.
#[verifier::external_body]
pub(crate) fn rope_insert(rope: &mut Rope, idx: usize, text: &str)
    requires
        idx <= rope_text(*old(rope)).len(),
    ensures
        rope_text(*final(rope)) == rope_text(*old(rope)).take(idx as int) + text@
            + rope_text(*old(rope)).skip(idx as int),
        rope_text(*final(rope)).len() <= usize::MAX,
{
    rope.insert(idx, text)
}

/// `Rope::remove`: takes out the characters from `start` to `end`. It panics
/// on a reversed or overlong range.
#[verifier::external_body]
pub(crate) fn rope_remove(rope: &mut Rope, start: usize, end: usize)
    requires
        start <= end <= rope_text(*old(rope)).len(),
    ensures
        rope_text(*final(rope)) == rope_text(*old(rope)).take(start as int)
            + rope_text(*old(rope)).skip(end as int),
{
    rope.remove(start..end)
}

/// `Rope::chunk_at_byte`: the stored piece of text that holds byte `byte`,
/// and the byte offset at which that piece starts. Where the pieces are cut
/// is left open. It panics behind the end of the text.
#[verifier::external_body]
pub(crate) fn rope_chunk_at_byte(rope: &Rope, byte: usize) -> (r: (&str, usize))
    requires
        byte <= byte_len(rope_text(*rope)),
    ensures
        r.1 <= byte <= r.1 + r.0.spec_bytes().len() <= byte_len(rope_text(*rope)),
        byte < byte_len(rope_text(*rope)) ==> byte < r.1 + r.0.spec_bytes().len(),
        r.0.spec_bytes() == encode_utf8(rope_text(*rope)).subrange(
            r.1 as int,
            r.1 + r.0.spec_bytes().len(),
        ),
{
    let (chunk, start, _, _) = rope.chunk_at_byte(byte);
    (chunk, start)
}

} // verus!
