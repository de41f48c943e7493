//! Highlight spans: which tag a capture's name stands for, how a captured
//! range is cut to the window that was asked for, and in which order the
//! spans are handed out.

use crate::strings::str_eq;
use std::ops::Range;
use vstd::prelude::*;
use vstd::string::*;

verus! {

/// The kinds of text that are told apart by colour.
#[derive(Debug, Clone, Copy, PartialEq, Eq, Structural)]
pub enum HighlightTag {
    Comment,
    String,
    Number,
    Keyword,
    Type,
    Function,
    Constant,
    Variable,
    Property,
    Operator,
    Punctuation,
}

/// A range of bytes of the text and the tag that it is shown with.
#[derive(Debug, PartialEq, Eq)]
pub struct HighlightSpan {
    pub byte_range: Range<usize>,
    pub tag: HighlightTag,
}

impl Clone for HighlightSpan {
    fn clone(&self) -> (span: Self)
        ensures
            span == *self,
    {
        HighlightSpan { byte_range: self.byte_range.start..self.byte_range.end, tag: self.tag }
    }
}

/// One capture of a highlight query: the name that the query gives it and
/// the range of bytes of the captured node.
#[derive(Debug, Clone, PartialEq, Eq)]
pub struct Capture {
    pub name: String,
    pub start_byte: usize,
    pub end_byte: usize,
}

/// `s` without the `@` signs at its start.
pub open spec fn without_at(s: Seq<char>) -> Seq<char>
    decreases s.len(),
{
    if s.len() > 0 && s[0] == '@' {
        without_at(s.drop_first())
    } else {
        s
    }
}

/// The number of characters of `s` before its first dot.
pub open spec fn head_len(s: Seq<char>) -> nat
    decreases s.len(),
{
    if s.len() > 0 && s[0] != '.' {
        1 + head_len(s.drop_first())
    } else {
        0
    }
}

/// The first part of a dotted capture name: what stands before its first
/// dot, leading `@` signs aside.
pub open spec fn capture_head(name: Seq<char>) -> Seq<char> {
    without_at(name).take(head_len(without_at(name)) as int)
}

/// The tag that the first part `head` of a capture name stands for.
pub open spec fn tag_of_head(head: Seq<char>) -> Option<HighlightTag> {
    if head == "comment"@ {
        Some(HighlightTag::Comment)
    } else if head == "string"@ || head == "escape"@ || head == "embedded"@ {
        Some(HighlightTag::String)
    } else if head == "number"@ {
        Some(HighlightTag::Number)
    } else if head == "keyword"@ {
        Some(HighlightTag::Keyword)
    } else if head == "type"@ || head == "constructor"@ {
        Some(HighlightTag::Type)
    } else if head == "function"@ {
        Some(HighlightTag::Function)
    } else if head == "constant"@ {
        Some(HighlightTag::Constant)
    } else if head == "variable"@ {
        Some(HighlightTag::Variable)
    } else if head == "property"@ || head == "field"@ {
        Some(HighlightTag::Property)
    } else if head == "operator"@ {
        Some(HighlightTag::Operator)
    } else if head == "punctuation"@ {
        Some(HighlightTag::Punctuation)
    } else {
        None
    }
}

/// The tag of a capture with the name `name`, if it has one.
pub open spec fn tag_of_name(name: Seq<char>) -> Option<HighlightTag> {
    tag_of_head(capture_head(name))
}

/// The span that the capture leaves in the window from `lo` to `hi`: its
/// range cut to the window, under the tag of its name. A capture without a
/// tag, or with nothing inside the window, leaves none.
pub open spec fn clipped(capture: Capture, lo: usize, hi: usize) -> Option<HighlightSpan> {
    let start = if capture.start_byte >= lo {
        capture.start_byte
    } else {
        lo
    };
    let end = if capture.end_byte <= hi {
        capture.end_byte
    } else {
        hi
    };
    match tag_of_name(capture.name@) {
        Some(tag) if start < end => Some(HighlightSpan { byte_range: start..end, tag }),
        _ => None,
    }
}

/// `a` comes no later than `b` in the order of spans: by start, then by end.
pub open spec fn span_le(a: HighlightSpan, b: HighlightSpan) -> bool {
    a.byte_range.start < b.byte_range.start || (a.byte_range.start == b.byte_range.start
        && a.byte_range.end <= b.byte_range.end)
}

/// The spans are in order.
pub open spec fn spans_sorted(spans: Seq<HighlightSpan>) -> bool {
    forall|i: int, j: int| 0 <= i <= j < spans.len() ==> span_le(spans[i], spans[j])
}

/// Where `span` goes into the ordered `spans`: behind the last span that
/// comes no later than it.
pub open spec fn insert_position(spans: Seq<HighlightSpan>, span: HighlightSpan) -> int
    decreases spans.len(),
{
    if spans.len() == 0 || span_le(spans.last(), span) {
        spans.len() as int
    } else {
        insert_position(spans.drop_last(), span)
    }
}

/// The spans of the captures in the window from `lo` to `hi`, in order.
/// Spans with the same range stay in the order of their captures.
pub open spec fn spans_of(captures: Seq<Capture>, lo: usize, hi: usize) -> Seq<HighlightSpan>
    decreases captures.len(),
{
    if captures.len() == 0 {
        Seq::empty()
    } else {
        let before = spans_of(captures.drop_last(), lo, hi);
        match clipped(captures.last(), lo, hi) {
            Some(span) => before.insert(insert_position(before, span), span),
            None => before,
        }
    }
}

/// Every span lies within the window from `lo` to `hi` and is not empty.
pub open spec fn spans_within(spans: Seq<HighlightSpan>, lo: usize, hi: usize) -> bool {
    forall|i: int|
        0 <= i < spans.len() ==> lo <= (#[trigger] spans[i]).byte_range.start
            < spans[i].byte_range.end <= hi
}

/// A span goes in at a position of the sequence, behind spans that come no
/// later than it and before spans that come later.
pub proof fn lemma_insert_position(spans: Seq<HighlightSpan>, span: HighlightSpan)
    requires
        spans_sorted(spans),
    ensures
        0 <= insert_position(spans, span) <= spans.len(),
        forall|i: int| 0 <= i < insert_position(spans, span) ==> span_le(spans[i], span),
        forall|i: int|
            insert_position(spans, span) <= i < spans.len() ==> !span_le(spans[i], span),
    decreases spans.len(),
{
    if spans.len() > 0 && !span_le(spans.last(), span) {
        let rest = spans.drop_last();
        assert forall|i: int, j: int| 0 <= i <= j < rest.len() implies span_le(rest[i], rest[j]) by {
            assert(span_le(spans[i], spans[j]));
        }
        lemma_insert_position(rest, span);
        assert forall|i: int| 0 <= i < insert_position(spans, span) implies span_le(
            spans[i],
            span,
        ) by {
            assert(spans[i] == rest[i]);
        }
        assert forall|i: int| insert_position(spans, span) <= i < spans.len() implies !span_le(
            spans[i],
            span,
        ) by {
            if i < rest.len() {
                assert(spans[i] == rest[i]);
            }
        }
    } else if spans.len() > 0 {
        assert forall|i: int| 0 <= i < spans.len() implies span_le(spans[i], span) by {
            assert(span_le(spans[i], spans.last()));
        }
    }
}

/// The spans of any captures are in order, lie within the window, and are
/// no more than the captures.
pub proof fn lemma_spans_of(captures: Seq<Capture>, lo: usize, hi: usize)
    ensures
        spans_sorted(spans_of(captures, lo, hi)),
        spans_within(spans_of(captures, lo, hi), lo, hi),
        spans_of(captures, lo, hi).len() <= captures.len(),
    decreases captures.len(),
{
    if captures.len() > 0 {
        let before = spans_of(captures.drop_last(), lo, hi);
        lemma_spans_of(captures.drop_last(), lo, hi);
        match clipped(captures.last(), lo, hi) {
            Some(span) => {
                lemma_insert_position(before, span);
                let at = insert_position(before, span);
                let after = before.insert(at, span);
                assert forall|i: int, j: int| 0 <= i <= j < after.len() implies span_le(
                    after[i],
                    after[j],
                ) by {
                    if i < at && j > at {
                        assert(span_le(before[i], span));
                        assert(!span_le(before[j - 1], span));
                        assert(span_le(before[i], before[j - 1]));
                    } else if i < at && j < at {
                        assert(span_le(before[i], before[j]));
                    } else if i > at {
                        assert(span_le(before[i - 1], before[j - 1]));
                    } else if i == at && j > at {
                        assert(!span_le(before[j - 1], span));
                    }
                }
                assert forall|i: int| 0 <= i < after.len() implies lo <= (
                #[trigger] after[i]).byte_range.start < after[i].byte_range.end <= hi by {
                    if i < at {
                        assert(after[i] == before[i]);
                    } else if i > at {
                        assert(after[i] == before[i - 1]);
                    }
                }
            },
            None => {},
        }
    }
}

/// The tag that a capture's name stands for: the part of the name before
/// its first dot decides, and a name that is not known has no tag.
pub fn tag_from_capture_name(name: &str) -> (tag: Option<HighlightTag>)
    ensures
        tag == tag_of_name(name@),
{
    let n = name.unicode_len();
    let mut from: usize = 0;
    assert(name@.skip(0) =~= name@);
    while from < n && name.get_char(from) == '@'
        invariant
            n == name@.len(),
            from <= n,
            without_at(name@) == without_at(name@.skip(from as int)),
        decreases n - from,
    {
        assert(name@.skip(from as int).drop_first() =~= name@.skip(from + 1));
        from += 1;
    }
    assert(without_at(name@) == name@.skip(from as int));
    let ghost rest = name@.skip(from as int);
    let mut to: usize = from;
    assert(rest.skip(0) =~= rest);
    while to < n && name.get_char(to) != '.'
        invariant
            n == name@.len(),
            from <= to <= n,
            rest == name@.skip(from as int),
            head_len(rest) == (to - from) + head_len(rest.skip(to - from)),
        decreases n - to,
    {
        assert(rest.skip(to - from).drop_first() =~= rest.skip(to + 1 - from));
        to += 1;
    }
    assert(head_len(rest) == to - from);
    let head = name.substring_char(from, to);
    assert(head@ =~= capture_head(name@));
    if str_eq(head, "comment") {
        Some(HighlightTag::Comment)
    } else if str_eq(head, "string") || str_eq(head, "escape") || str_eq(head, "embedded") {
        Some(HighlightTag::String)
    } else if str_eq(head, "number") {
        Some(HighlightTag::Number)
    } else if str_eq(head, "keyword") {
        Some(HighlightTag::Keyword)
    } else if str_eq(head, "type") || str_eq(head, "constructor") {
        Some(HighlightTag::Type)
    } else if str_eq(head, "function") {
        Some(HighlightTag::Function)
    } else if str_eq(head, "constant") {
        Some(HighlightTag::Constant)
    } else if str_eq(head, "variable") {
        Some(HighlightTag::Variable)
    } else if str_eq(head, "property") || str_eq(head, "field") {
        Some(HighlightTag::Property)
    } else if str_eq(head, "operator") {
        Some(HighlightTag::Operator)
    } else if str_eq(head, "punctuation") {
        Some(HighlightTag::Punctuation)
    } else {
        None
    }
}

/// Turns the captures of a query into the spans of the window from
/// `range.start` to `range.end`, in order.
pub fn spans_from_captures(captures: &Vec<Capture>, range: Range<usize>) -> (spans: Vec<
    HighlightSpan,
>)
    ensures
        spans@ == spans_of(captures@, range.start, range.end),
        spans_sorted(spans@),
        spans_within(spans@, range.start, range.end),
{
    let mut spans: Vec<HighlightSpan> = Vec::new();
    let mut k: usize = 0;
    while k < captures.len()
        invariant
            k <= captures.len(),
            spans@ == spans_of(captures@.take(k as int), range.start, range.end),
        decreases captures.len() - k,
    {
        let capture = &captures[k];
        proof {
            assert(captures@.take(k + 1).drop_last() =~= captures@.take(k as int));
            lemma_spans_of(captures@.take(k as int), range.start, range.end);
        }
        let start = if capture.start_byte >= range.start {
            capture.start_byte
        } else {
            range.start
        };
        let end = if capture.end_byte <= range.end {
            capture.end_byte
        } else {
            range.end
        };
        if start < end {
            match tag_from_capture_name(capture.name.as_str()) {
                Some(tag) => {
                    let span = HighlightSpan { byte_range: start..end, tag };
                    let ghost before = spans@;
                    let mut at = spans.len();
                    assert(before.take(at as int) =~= before);
                    while at > 0 && !(spans[at - 1].byte_range.start < start || (spans[at
                        - 1].byte_range.start == start && spans[at - 1].byte_range.end <= end))
                        invariant
                            at <= spans.len(),
                            spans@ == before,
                            span.byte_range.start == start,
                            span.byte_range.end == end,
                            insert_position(before, span) == insert_position(
                                before.take(at as int),
                                span,
                            ),
                        decreases at,
                    {
                        assert(before.take(at as int).drop_last() =~= before.take(at - 1));
                        at -= 1;
                    }
                    assert(insert_position(before, span) == at);
                    spans.insert(at, span);
                },
                None => {},
            }
        }
        k += 1;
    }
    proof {
        assert(captures@.take(k as int) =~= captures@);
        lemma_spans_of(captures@, range.start, range.end);
    }
    spans
}

} // verus!
