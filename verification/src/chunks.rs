//! The bytes of a rope's text, handed out piece by piece to a reader that
//! asks for them by byte offset.

use crate::rope::{rope_chunk_at_byte, rope_len_bytes, rope_text};
use ropey::Rope;
use vstd::prelude::*;
use vstd::slice::slice_subrange;
use vstd::string::*;
use vstd::utf8::encode_utf8;

verus! {

/// The text of `rope` in UTF-8.
pub open spec fn rope_bytes(rope: Rope) -> Seq<u8> {
    encode_utf8(rope_text(rope))
}

/// Some bytes of the text that begin at `byte_offset`: at least one where
/// the offset lies before the end of the text, none where it does not.
pub fn rope_chunk_from_byte(rope: &Rope, byte_offset: usize) -> (chunk: &[u8])
    ensures
        byte_offset >= rope_bytes(*rope).len() ==> chunk@.len() == 0,
        byte_offset < rope_bytes(*rope).len() ==> chunk@.len() > 0,
        byte_offset + chunk@.len() <= rope_bytes(*rope).len() || chunk@.len() == 0,
        chunk@.len() > 0 ==> chunk@ == rope_bytes(*rope).subrange(
            byte_offset as int,
            byte_offset + chunk@.len(),
        ),
{
    if byte_offset >= rope_len_bytes(rope) {
        let empty: &[u8] = &[];
        return empty;
    }
    let (chunk, chunk_start) = rope_chunk_at_byte(rope, byte_offset);
    let bytes = chunk.as_bytes();
    let rel = byte_offset - chunk_start;
    let out = slice_subrange(bytes, rel, bytes.len());
    assert(out@ =~= rope_bytes(*rope).subrange(byte_offset as int, byte_offset + out@.len()));
    out
}

/// The bytes of the text from `start` to `end`, or to the end of the text
/// where `end` lies behind it.
pub fn node_bytes(rope: &Rope, start: usize, end: usize) -> (out: Vec<u8>)
    ensures
        start <= end && start <= rope_bytes(*rope).len() ==> out@ == rope_bytes(*rope).subrange(
            start as int,
            if end <= rope_bytes(*rope).len() {
                end as int
            } else {
                rope_bytes(*rope).len() as int
            },
        ),
        !(start <= end && start <= rope_bytes(*rope).len()) ==> out@.len() == 0,
{
    let len = rope_len_bytes(rope);
    let end = if end <= len {
        end
    } else {
        len
    };
    let mut out: Vec<u8> = Vec::new();
    if start > end {
        return out;
    }
    let mut pos = start;
    assert(out@ =~= rope_bytes(*rope).subrange(start as int, pos as int));
    while pos < end
        invariant
            start <= pos <= end <= len,
            len == rope_bytes(*rope).len(),
            out@ == rope_bytes(*rope).subrange(start as int, pos as int),
        decreases end - pos,
    {
        let chunk = rope_chunk_from_byte(rope, pos);
        let take = if end - pos <= chunk.len() {
            end - pos
        } else {
            chunk.len()
        };
        let piece = slice_subrange(chunk, 0, take);
        out.extend_from_slice(piece);
        assert(out@ =~= rope_bytes(*rope).subrange(start as int, pos + take));
        pos += take;
    }
    out
}

} // verus!
