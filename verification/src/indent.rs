//! Indentation of a new line: what a line is indented by, whether the cursor
//! stands behind an opening or before a closing brace, and how far the new
//! line is indented then.

use crate::chars::char_is_whitespace;
use crate::strings::{trim_end, trim_start};
use crate::rope::{rope_char, rope_text};
use ropey::Rope;
use vstd::prelude::*;
use vstd::string::*;

verus! {

/// The characters that count as indentation.
pub open spec fn is_indent_char(c: char) -> bool {
    c == ' ' || c == '\t'
}

/// One step of indentation: four spaces.
pub open spec fn indent_unit() -> Seq<char> {
    seq![' ', ' ', ' ', ' ']
}

/// The number of indentation characters that `s` begins with.
pub open spec fn indent_len(s: Seq<char>) -> nat
    decreases s.len(),
{
    if s.len() > 0 && is_indent_char(s[0]) {
        1 + indent_len(s.drop_first())
    } else {
        0
    }
}

/// The run of spaces and tabs that `s` begins with.
pub open spec fn leading_indent_of(s: Seq<char>) -> Seq<char> {
    s.take(indent_len(s) as int)
}

/// The last character of `s` that is not white space is `c`.
pub open spec fn ends_with_char(s: Seq<char>, c: char) -> bool {
    trim_end(s).len() > 0 && trim_end(s).last() == c
}

/// The first character of `s` that is not white space is `c`.
pub open spec fn starts_with_char(s: Seq<char>, c: char) -> bool {
    trim_start(s).len() > 0 && trim_start(s)[0] == c
}

/// `s` ends with `suffix`.
pub open spec fn has_suffix(s: Seq<char>, suffix: Seq<char>) -> bool {
    suffix.len() <= s.len() && s.skip(s.len() - suffix.len()) == suffix
}

/// `indent` with one step taken off its end: one `unit` where it ends with
/// that, else one tab where it ends with a tab, else nothing.
pub open spec fn decreased_indent(indent: Seq<char>, unit: Seq<char>) -> Seq<char> {
    if has_suffix(indent, unit) {
        indent.take(indent.len() - unit.len())
    } else if indent.len() > 0 && indent.last() == '\t' {
        indent.drop_last()
    } else {
        indent
    }
}

/// The indentation of the line that a line break at the cursor begins,
/// where `base` is the indentation of the cursor's line, `opens` says that
/// the cursor stands behind an opening brace, and `closes` that it stands
/// before a closing one.
pub open spec fn next_indent(base: Seq<char>, opens: bool, closes: bool) -> Seq<char> {
    if closes {
        decreased_indent(base, indent_unit())
    } else if opens {
        base + indent_unit()
    } else {
        base
    }
}

/// A text that begins with `k` indentation characters and goes on with
/// another character, or ends there, has an indentation of length `k`.
proof fn lemma_indent_len(s: Seq<char>, k: nat)
    requires
        k <= s.len(),
        forall|i: int| 0 <= i < k ==> is_indent_char(#[trigger] s[i]),
        k < s.len() ==> !is_indent_char(s[k as int]),
    ensures
        indent_len(s) == k,
    decreases k,
{
    if k > 0 {
        let rest = s.drop_first();
        assert forall|i: int| 0 <= i < k - 1 implies is_indent_char(#[trigger] rest[i]) by {
            assert(rest[i] == s[i + 1]);
        }
        lemma_indent_len(rest, (k - 1) as nat);
    }
}

/// The run of spaces and tabs at the start of the characters from `start`
/// to `end`.
pub(crate) fn leading_indent(rope: &Rope, start: usize, end: usize) -> (out: String)
    requires
        start <= end <= rope_text(*rope).len(),
    ensures
        out@ == leading_indent_of(rope_text(*rope).subrange(start as int, end as int)),
{
    let ghost line = rope_text(*rope).subrange(start as int, end as int);
    let mut out = String::new();
    let mut pos = start;
    while pos < end
        invariant
            start <= pos <= end <= rope_text(*rope).len(),
            line == rope_text(*rope).subrange(start as int, end as int),
            out@ == line.take(pos - start),
            forall|i: int| 0 <= i < pos - start ==> is_indent_char(#[trigger] line[i]),
        ensures
            start <= pos <= end,
            out@ == line.take(pos - start),
            forall|i: int| 0 <= i < pos - start ==> is_indent_char(#[trigger] line[i]),
            pos < end ==> !is_indent_char(line[pos - start]),
        decreases end - pos,
    {
        let ch = rope_char(rope, pos);
        if ch == ' ' {
            proof {
                reveal_strlit(" ");
            }
            out.append(" ");
        } else if ch == '\t' {
            proof {
                reveal_strlit("\t");
            }
            out.append("\t");
        } else {
            break ;
        }
        assert(out@ =~= line.take(pos + 1 - start));
        pos += 1;
    }
    proof {
        lemma_indent_len(line, (pos - start) as nat);
    }
    out
}

/// Whether the last character from `start` to `end` that is not white
/// space is `c`.
pub(crate) fn line_part_ends_with(rope: &Rope, start: usize, end: usize, c: char) -> (b: bool)
    requires
        start <= end <= rope_text(*rope).len(),
    ensures
        b == ends_with_char(rope_text(*rope).subrange(start as int, end as int), c),
{
    let ghost text = rope_text(*rope);
    let mut i = end;
    while i > start
        invariant
            start <= i <= end <= text.len(),
            text == rope_text(*rope),
            trim_end(text.subrange(start as int, end as int)) == trim_end(
                text.subrange(start as int, i as int),
            ),
        ensures
            start <= i <= end,
            trim_end(text.subrange(start as int, end as int)) == text.subrange(
                start as int,
                i as int,
            ),
        decreases i - start,
    {
        if !char_is_whitespace(rope_char(rope, i - 1)) {
            break ;
        }
        assert(text.subrange(start as int, i as int).drop_last() =~= text.subrange(
            start as int,
            i - 1,
        ));
        i -= 1;
    }
    i > start && rope_char(rope, i - 1) == c
}

/// Whether the first character from `start` to `end` that is not white
/// space is `c`.
pub(crate) fn line_part_starts_with(rope: &Rope, start: usize, end: usize, c: char) -> (b: bool)
    requires
        start <= end <= rope_text(*rope).len(),
    ensures
        b == starts_with_char(rope_text(*rope).subrange(start as int, end as int), c),
{
    let ghost text = rope_text(*rope);
    let mut i = start;
    while i < end
        invariant
            start <= i <= end <= text.len(),
            text == rope_text(*rope),
            trim_start(text.subrange(start as int, end as int)) == trim_start(
                text.subrange(i as int, end as int),
            ),
        ensures
            start <= i <= end,
            trim_start(text.subrange(start as int, end as int)) == text.subrange(
                i as int,
                end as int,
            ),
        decreases end - i,
    {
        if !char_is_whitespace(rope_char(rope, i)) {
            break ;
        }
        assert(text.subrange(i as int, end as int).drop_first() =~= text.subrange(
            i + 1,
            end as int,
        ));
        i += 1;
    }
    i < end && rope_char(rope, i) == c
}

/// Whether `s` ends with `suffix`.
fn str_has_suffix(s: &str, suffix: &str) -> (b: bool)
    ensures
        b == has_suffix(s@, suffix@),
{
    let n = s.unicode_len();
    let k = suffix.unicode_len();
    if k > n {
        return false;
    }
    let mut i: usize = 0;
    while i < k
        invariant
            k <= n,
            n == s@.len(),
            k == suffix@.len(),
            i <= k,
            forall|j: int| 0 <= j < i ==> s@[n - k + j] == suffix@[j],
        decreases k - i,
    {
        if s.get_char(n - k + i) != suffix.get_char(i) {
            assert(s@.skip(n - k)[i as int] != suffix@[i as int]);
            return false;
        }
        i += 1;
    }
    assert(s@.skip(n - k) =~= suffix@);
    true
}

/// `indent` with one step taken off its end.
pub fn decrease_indent(indent: &str, indent_unit: &str) -> (out: String)
    ensures
        out@ == decreased_indent(indent@, indent_unit@),
{
    let n = indent.unicode_len();
    if str_has_suffix(indent, indent_unit) {
        let k = indent_unit.unicode_len();
        indent.substring_char(0, n - k).to_owned()
    } else if n > 0 && indent.get_char(n - 1) == '\t' {
        indent.substring_char(0, n - 1).to_owned()
    } else {
        indent.to_owned()
    }
}

} // verus!
