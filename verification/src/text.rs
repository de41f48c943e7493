//! What a buffer's text means as a sequence of characters: its lines, which
//! end at each line feed, and the UTF-8 byte offsets of its positions.

use vstd::prelude::*;
use vstd::utf8::encode_utf8;

verus! {

/// The number of line feeds in `s`.
pub open spec fn count_lf(s: Seq<char>) -> nat
    decreases s.len(),
{
    if s.len() == 0 {
        0
    } else {
        count_lf(s.drop_first()) + if s[0] == '\n' {
            1nat
        } else {
            0nat
        }
    }
}

/// The number of lines in `text`: one more than its line feeds, so that a
/// text ending in a line feed has an empty last line.
pub open spec fn line_count(text: Seq<char>) -> nat {
    count_lf(text) + 1
}

/// The index of the line that position `idx` lies on: the number of line
/// feeds before it.
pub open spec fn line_of(text: Seq<char>, idx: int) -> nat {
    count_lf(text.take(idx))
}

/// The position at which line `line` starts: just behind the `line`-th line
/// feed, or the end of the text where it has fewer line feeds.
pub open spec fn line_start(text: Seq<char>, line: nat) -> nat
    decreases text.len(),
{
    if line == 0 || text.len() == 0 {
        0
    } else if text[0] == '\n' {
        1 + line_start(text.drop_first(), (line - 1) as nat)
    } else {
        1 + line_start(text.drop_first(), line)
    }
}

/// The number of characters on line `line` that are shown: its length
/// without the closing line feed and without a carriage return before that.
pub open spec fn visible_len(text: Seq<char>, line: nat) -> nat {
    let start = line_start(text, line);
    let end = line_start(text, line + 1);
    if end > start && text[end - 1] == '\n' {
        if end - 1 > start && text[end - 2] == '\r' {
            (end - start - 2) as nat
        } else {
            (end - start - 1) as nat
        }
    } else {
        (end - start) as nat
    }
}

/// The column of position `idx`: its distance from the start of its line.
pub open spec fn column_of(text: Seq<char>, idx: int) -> int {
    idx - line_start(text, line_of(text, idx))
}

/// The number of bytes that `s` takes in UTF-8.
pub open spec fn byte_len(s: Seq<char>) -> nat {
    encode_utf8(s).len()
}

/// The byte offset of character position `idx` in the UTF-8 form of `text`.
pub open spec fn byte_offset(text: Seq<char>, idx: int) -> nat {
    byte_len(text.take(idx))
}

/// The byte offset of position `idx` from the start of its line.
pub open spec fn byte_column(text: Seq<char>, idx: int) -> nat {
    byte_len(text.subrange(line_start(text, line_of(text, idx)) as int, idx))
}

/// `text` with the characters from `start` to `end` replaced by `inserted`.
pub open spec fn splice(text: Seq<char>, start: int, end: int, inserted: Seq<char>) -> Seq<char> {
    text.take(start) + inserted + text.skip(end)
}

/// A line never starts behind the end of the text.
pub proof fn lemma_line_start_bound(text: Seq<char>, line: nat)
    ensures
        line_start(text, line) <= text.len(),
    decreases text.len(),
{
    if line != 0 && text.len() != 0 {
        if text[0] == '\n' {
            lemma_line_start_bound(text.drop_first(), (line - 1) as nat);
        } else {
            lemma_line_start_bound(text.drop_first(), line);
        }
    }
}

/// Later lines start later.
pub proof fn lemma_line_start_monotonic(text: Seq<char>, line: nat)
    ensures
        line_start(text, line) <= line_start(text, line + 1),
    decreases text.len(),
{
    if text.len() != 0 {
        if line == 0 {
        } else if text[0] == '\n' {
            lemma_line_start_monotonic(text.drop_first(), (line - 1) as nat);
        } else {
            lemma_line_start_monotonic(text.drop_first(), line);
        }
    }
}

/// The line that a position lies on starts at or before that position.
pub proof fn lemma_line_start_of_line(text: Seq<char>, idx: int)
    requires
        0 <= idx <= text.len(),
    ensures
        line_start(text, line_of(text, idx)) <= idx,
    decreases text.len(),
{
    if idx > 0 {
        let rest = text.drop_first();
        assert(text.take(idx).drop_first() =~= rest.take(idx - 1));
        lemma_line_start_of_line(rest, idx - 1);
    } else {
        assert(text.take(0).len() == 0);
    }
}

/// No prefix of a text has more line feeds than the text.
pub proof fn lemma_line_of_bound(text: Seq<char>, idx: int)
    requires
        0 <= idx <= text.len(),
    ensures
        line_of(text, idx) <= count_lf(text),
    decreases text.len(),
{
    if idx > 0 {
        let rest = text.drop_first();
        assert(text.take(idx).drop_first() =~= rest.take(idx - 1));
        lemma_line_of_bound(rest, idx - 1);
    } else {
        assert(text.take(0).len() == 0);
    }
}

/// The shown part of a line lies within the line, and the line within the text.
pub proof fn lemma_visible_len_bound(text: Seq<char>, line: nat)
    ensures
        line_start(text, line) + visible_len(text, line) <= line_start(text, line + 1),
        line_start(text, line + 1) <= text.len(),
{
    lemma_line_start_monotonic(text, line);
    lemma_line_start_bound(text, line + 1);
}

/// UTF-8 encodes a concatenation piece by piece.
pub proof fn lemma_encode_concat(a: Seq<char>, b: Seq<char>)
    ensures
        encode_utf8(a + b) =~= encode_utf8(a) + encode_utf8(b),
    decreases a.len(),
{
    if a.len() == 0 {
        assert(a + b =~= b);
    } else {
        assert((a + b).drop_first() =~= a.drop_first() + b);
        lemma_encode_concat(a.drop_first(), b);
    }
}

/// The byte offset of a position is that of an earlier position plus the
/// bytes of the characters between them.
pub proof fn lemma_byte_offset_split(text: Seq<char>, from: int, to: int)
    requires
        0 <= from <= to <= text.len(),
    ensures
        byte_offset(text, to) == byte_offset(text, from) + byte_len(text.subrange(from, to)),
{
    assert(text.take(to) =~= text.take(from) + text.subrange(from, to));
    lemma_encode_concat(text.take(from), text.subrange(from, to));
}

} // verus!
