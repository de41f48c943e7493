//! The syntax state of one document: a parser for its language, the tree of
//! the last parse, and the query that finds what to highlight. Edits shift
//! the tree at once and are parsed in later, when the document has been
//! quiet for a while.

use crate::grammar::{
    bundled_highlights, bundled_source, captures_in, compiled_query, edited_tree, elapsed_millis,
    grammar_accepted, instant_now, parse_outcome, parse_rope, parser_new, parser_set_language,
    query_captures, query_cursor_new, query_failure, query_new, tree_edit, Grammar,
};
use crate::chunks::rope_bytes;
use crate::highlight::{spans_from_captures, spans_of, spans_sorted, spans_within, HighlightSpan};
use crate::language::LanguageId;
use crate::model::EditorEdit;
use ropey::Rope;
use std::ops::Range;
use std::time::Instant;
use tree_sitter::{Parser, Query, QueryCursor, Tree};
use vstd::prelude::*;
use vstd::string::*;

verus! {

/// What can go wrong with highlighting. None of it harms the text.
#[derive(Debug)]
pub enum SyntaxError {
    /// The parser does not take the grammar.
    ParserInit,
    /// A parse did not yield a tree.
    ParseFailed,
    /// The highlight query is not one of the grammar, with the reason.
    Query(String),
}

/// The patterns that are added to the highlight query of the C++ grammar.
pub const CPP_EXTRA_PATTERNS: &'static str = "
(comment) @comment
(number_literal) @number
(char_literal) @string
(string_literal) @string
(raw_string_literal) @string
(concatenated_string) @string
(system_lib_string) @string
(preproc_directive) @keyword
";

/// The highlight query for HLSL.
pub const HLSL_PATTERNS: &'static str = "
(comment) @comment
(number_literal) @number
(string_literal) @string
(raw_string_literal) @string
(concatenated_string) @string
(system_lib_string) @string
(preproc_directive) @keyword
(primitive_type) @type
(type_identifier) @type

(call_expression
  function: (identifier) @function)

(call_expression
  function: (field_expression
              field: (field_identifier) @function))

(function_definition
  declarator: (function_declarator
                declarator: (identifier) @function))

(field_identifier) @property
";

/// How long a document has to be quiet before it is parsed again, in
/// milliseconds, for a language with a grammar.
pub const DEBOUNCE_MILLIS: u64 = 40;

/// The highest byte offset that a highlight query takes: the query counts
/// bytes in 32 bits.
pub const QUERY_LIMIT: usize = 0xFFFF_FFFF;

/// Where the window of a highlight query ends that is asked for up to
/// `end`.
pub open spec fn query_end(end: usize) -> usize {
    if end <= QUERY_LIMIT {
        end
    } else {
        QUERY_LIMIT
    }
}

/// The grammar of a language, if it has one.
pub open spec fn grammar_of(language: LanguageId) -> Option<Grammar> {
    match language {
        LanguageId::Cpp => Some(Grammar::Cpp),
        LanguageId::Python => Some(Grammar::Python),
        LanguageId::Hlsl => Some(Grammar::Hlsl),
        LanguageId::Markdown | LanguageId::PlainText => None,
    }
}

/// The debounce interval of a language in milliseconds.
pub open spec fn debounce_of(language: LanguageId) -> u64 {
    if language.has_grammar() {
        DEBOUNCE_MILLIS
    } else {
        0
    }
}

/// The source of the highlight query of a grammar, given the query that the
/// grammar brings along.
pub open spec fn query_source_of(grammar: Grammar, bundled: Option<Seq<char>>) -> Seq<char> {
    let bundled = match bundled {
        Some(source) => source,
        None => Seq::empty(),
    };
    match grammar {
        Grammar::Cpp => bundled + "\n"@ + CPP_EXTRA_PATTERNS@,
        Grammar::Python => bundled,
        Grammar::Hlsl => HLSL_PATTERNS@,
    }
}

/// Whether the parser refuses the grammar of the language.
pub open spec fn parser_refuses(language: LanguageId) -> bool {
    match grammar_of(language) {
        Some(grammar) => !grammar_accepted(grammar),
        None => false,
    }
}

/// The message with which the highlight query of the language is refused,
/// if the parser takes the grammar and the query is refused.
pub open spec fn query_refused(language: LanguageId) -> Option<Seq<char>> {
    match grammar_of(language) {
        Some(grammar) => if grammar_accepted(grammar) {
            query_failure(grammar, query_source_of(grammar, bundled_source(grammar)))
        } else {
            None
        },
        None => None,
    }
}

/// A syntax state as a value: its language, the tree and the query that it
/// holds, the time since which an edit waits to be parsed in, and its
/// debounce interval. The parser and the cursor of the query, which hold
/// nothing between two calls, are left out.
pub struct SyntaxModel {
    pub language: LanguageId,
    pub tree: Option<Tree>,
    pub query: Option<Query>,
    pub pending_since: Option<Instant>,
    pub debounce_ms: u64,
}

impl SyntaxModel {
    /// The state is one that the language starts in: no tree, nothing
    /// waiting, and the highlight query of its grammar, compiled, where the
    /// language has a grammar.
    pub open spec fn is_fresh(self, language: LanguageId) -> bool {
        &&& self.language == language
        &&& self.tree is None
        &&& self.query == match grammar_of(language) {
            Some(grammar) => Some(
                compiled_query(grammar, query_source_of(grammar, bundled_source(grammar))),
            ),
            None => None,
        }
        &&& self.pending_since is None
        &&& self.debounce_ms == debounce_of(language)
    }

    /// The state after a parse that yielded `tree`: it holds that tree, and
    /// nothing waits.
    pub open spec fn installed(self, tree: Tree) -> SyntaxModel {
        SyntaxModel { tree: Some(tree), pending_since: None, ..self }
    }

    /// The state after `edit` was queued at the time `now`: the tree held is
    /// shifted by the edit, and an edit waits since `now`. Without a grammar
    /// nothing changes.
    pub open spec fn edited(self, edit: EditorEdit, now: Instant) -> SyntaxModel {
        if self.language.has_grammar() {
            SyntaxModel {
                tree: match self.tree {
                    Some(tree) => Some(edited_tree(tree, edit)),
                    None => None,
                },
                pending_since: Some(now),
                ..self
            }
        } else {
            self
        }
    }

    /// Whether a parse is due when `elapsed_ms` milliseconds have passed
    /// since the last edit was queued: an edit waits, and has waited for the
    /// debounce interval.
    pub open spec fn reparse_due(self, elapsed_ms: u128) -> bool {
        self.language.has_grammar() && self.pending_since is Some && elapsed_ms
            >= self.debounce_ms
    }

    /// The state after a call that parses where a parse is due, when
    /// `elapsed_ms` milliseconds have passed since the last edit was queued
    /// and the parse, where one is made, yields `parsed`.
    pub open spec fn ensure_parsed(self, elapsed_ms: u128, parsed: Option<Tree>) -> SyntaxModel {
        match parsed {
            Some(tree) if self.reparse_due(elapsed_ms) => self.installed(tree),
            _ => self,
        }
    }

    /// The number of times that such a call replaces the tree: once or not
    /// at all.
    pub open spec fn reparses(self, elapsed_ms: u128, parsed: Option<Tree>) -> nat {
        if self.reparse_due(elapsed_ms) && parsed is Some {
            1
        } else {
            0
        }
    }

    /// `after` is what a call that parses where a parse is due leaves of
    /// this state, when `elapsed_ms` milliseconds have passed since the last
    /// edit was queued and the call returns `Ok` or not as `ok` says: the
    /// same state where nothing is due, and where a parse fails; the state
    /// with the new tree, and nothing waiting, where a parse succeeds.
    pub open spec fn parsed_into(self, after: SyntaxModel, elapsed_ms: u128, ok: bool) -> bool {
        if !self.reparse_due(elapsed_ms) {
            ok && after == self
        } else if ok {
            after.tree is Some && after == self.installed(after.tree->0)
        } else {
            after == self
        }
    }
}

/// Within the debounce interval no call parses, whatever waits: the tree
/// and the time since which an edit waits stay as they are.
pub proof fn lemma_no_reparse_within_interval(
    m: SyntaxModel,
    elapsed_ms: u128,
    parsed: Option<Tree>,
)
    requires
        elapsed_ms < m.debounce_ms,
    ensures
        m.reparses(elapsed_ms, parsed) == 0,
        m.ensure_parsed(elapsed_ms, parsed) == m,
{
}

/// Two calls in a row, with no edit queued between them, replace the tree
/// at most once between them, whenever they are made.
pub proof fn lemma_two_calls_reparse_once(
    m: SyntaxModel,
    first_ms: u128,
    first: Option<Tree>,
    second_ms: u128,
    second: Option<Tree>,
)
    ensures
        m.reparses(first_ms, first) + m.ensure_parsed(first_ms, first).reparses(second_ms, second)
            <= 1,
{
}

/// Once the interval has passed since an edit was queued, one call whose
/// parse yields a tree replaces the tree held by that tree, once, and leaves
/// nothing waiting, so that the calls after it parse no more.
pub proof fn lemma_reparse_after_interval(
    m: SyntaxModel,
    edit: EditorEdit,
    now: Instant,
    elapsed_ms: u128,
    tree: Tree,
)
    requires
        m.language.has_grammar(),
        elapsed_ms >= m.debounce_ms,
    ensures
        m.edited(edit, now).reparses(elapsed_ms, Some(tree)) == 1,
        m.edited(edit, now).ensure_parsed(elapsed_ms, Some(tree)).tree == Some(tree),
        m.edited(edit, now).ensure_parsed(elapsed_ms, Some(tree)).pending_since is None,
        forall|later_ms: u128, later: Option<Tree>|
            m.edited(edit, now).ensure_parsed(elapsed_ms, Some(tree)).reparses(later_ms, later)
                == 0,
{
}

/// A parse that yields no tree leaves the tree held, and the edit waiting,
/// as they are, so that a later call tries again.
pub proof fn lemma_failed_parse_keeps_state(m: SyntaxModel, elapsed_ms: u128)
    ensures
        m.ensure_parsed(elapsed_ms, None) == m,
        m.parsed_into(m, elapsed_ms, !m.reparse_due(elapsed_ms)),
{
}

/// The grammar of a language, if it has one.
pub fn language_grammar(language: LanguageId) -> (grammar: Option<Grammar>)
    ensures
        grammar == grammar_of(language),
        grammar is Some <==> language.has_grammar(),
{
    match language {
        LanguageId::Cpp => Some(Grammar::Cpp),
        LanguageId::Python => Some(Grammar::Python),
        LanguageId::Hlsl => Some(Grammar::Hlsl),
        LanguageId::Markdown | LanguageId::PlainText => None,
    }
}

/// The source of the highlight query of a grammar, given the query that the
/// grammar brings along.
pub fn query_source(grammar: Grammar, bundled: Option<&str>) -> (source: String)
    ensures
        source@ == query_source_of(
            grammar,
            match bundled {
                Some(text) => Some(text@),
                None => None,
            },
        ),
{
    let mut source = String::new();
    match grammar {
        Grammar::Cpp => {
            match bundled {
                Some(text) => {
                    source.append(text);
                },
                None => {},
            }
            source.append("\n");
            source.append(CPP_EXTRA_PATTERNS);
        },
        Grammar::Python => {
            match bundled {
                Some(text) => {
                    source.append(text);
                },
                None => {},
            }
        },
        Grammar::Hlsl => {
            source.append(HLSL_PATTERNS);
        },
    }
    assert(source@ =~= query_source_of(
        grammar,
        match bundled {
            Some(text) => Some(text@),
            None => None,
        },
    ));
    source
}

/// The syntax state of one document.
pub struct SyntaxState {
    language: LanguageId,
    parser: Parser,
    tree: Option<Tree>,
    query: Option<Query>,
    cursor: QueryCursor,
    debounce_ms: u64,
    pending_since: Option<Instant>,
}

impl View for SyntaxState {
    type V = SyntaxModel;

    closed spec fn view(&self) -> SyntaxModel {
        SyntaxModel {
            language: self.language,
            tree: self.tree,
            query: self.query,
            pending_since: self.pending_since,
            debounce_ms: self.debounce_ms,
        }
    }
}

impl SyntaxState {
    /// The parser that the state parses with.
    pub closed spec fn parser(&self) -> Parser {
        self.parser
    }

    /// What a parse of the text of `rope` yields now: from scratch, or from
    /// the tree held.
    pub open spec fn parse_of(&self, rope: Rope, from_scratch: bool) -> Option<Tree> {
        parse_outcome(
            self.parser(),
            rope_bytes(rope),
            if from_scratch {
                None
            } else {
                self@.tree
            },
        )
    }

    /// Makes the state for a document in `language`. A language without a
    /// grammar always gets one, which then holds no query and never a tree.
    /// With a grammar it fails where the parser refuses the grammar, and
    /// where the highlight query is refused.
    pub fn new(language: LanguageId) -> (r: Result<Self, SyntaxError>)
        ensures
            r is Ok <==> !parser_refuses(language) && query_refused(language) is None,
            (r matches Err(SyntaxError::ParserInit)) <==> parser_refuses(language),
            r matches Err(SyntaxError::Query(message)) ==> query_refused(language) == Some(
                message@,
            ),
            r matches Err(error) ==> !(error is ParseFailed),
            r matches Ok(state) ==> state@.is_fresh(language),
    {
        let mut parser = parser_new();
        let (query, debounce_ms) = match language_grammar(language) {
            None => (None, 0),
            Some(grammar) => {
                match parser_set_language(&mut parser, grammar) {
                    Ok(()) => {},
                    Err(_) => {
                        return Err(SyntaxError::ParserInit);
                    },
                }
                let source = query_source(grammar, bundled_highlights(grammar));
                match query_new(grammar, source.as_str()) {
                    Ok(query) => (Some(query), DEBOUNCE_MILLIS),
                    Err(message) => {
                        return Err(SyntaxError::Query(message));
                    },
                }
            },
        };
        Ok(
            Self {
                language,
                parser,
                tree: None,
                query,
                cursor: query_cursor_new(),
                debounce_ms,
                pending_since: None,
            },
        )
    }

    pub fn language(&self) -> (language: LanguageId)
        ensures
            language == self@.language,
    {
        self.language
    }

    /// Takes in what a parse yielded: a tree replaces the one held and
    /// leaves nothing waiting; no tree is a failure that changes nothing.
    pub fn install_tree(&mut self, parsed: Option<Tree>) -> (r: Result<(), SyntaxError>)
        ensures
            parsed matches Some(tree) ==> r is Ok && final(self)@ == old(self)@.installed(tree),
            parsed is None ==> (r matches Err(SyntaxError::ParseFailed)) && *final(self) == *old(self),
    {
        match parsed {
            Some(tree) => {
                self.tree = Some(tree);
                self.pending_since = None;
                Ok(())
            },
            None => Err(SyntaxError::ParseFailed),
        }
    }

    /// Parses the text from scratch. Without a grammar there is nothing to
    /// parse and no tree is held. A parse that fails leaves the tree held,
    /// and what waits, as they were.
    pub fn set_text(&mut self, rope: &Rope) -> (r: Result<(), SyntaxError>)
        ensures
            !old(self)@.language.has_grammar() ==> r is Ok && final(self)@ == (SyntaxModel {
                tree: None,
                ..old(self)@
            }),
            old(self)@.language.has_grammar() ==> (r is Ok <==> old(self).parse_of(*rope, true)
                is Some),
            old(self)@.language.has_grammar() && r is Ok ==> final(self)@ == old(self)@.installed(old(self).parse_of(*rope, true)->0),
            r matches Err(error) ==> (error is ParseFailed) && final(self)@ == old(self)@,
    {
        if self.language == LanguageId::PlainText || self.language == LanguageId::Markdown {
            self.tree = None;
            return Ok(());
        }
        let parsed = parse_rope(&mut self.parser, rope, None);
        self.install_tree(parsed)
    }

    /// Shifts the tree by what `edit` describes, and notes that an edit
    /// waits to be parsed in from now on. Without a grammar nothing happens.
    pub fn queue_edit(&mut self, edit: EditorEdit)
        ensures
            !old(self)@.language.has_grammar() ==> *final(self) == *old(self),
            old(self)@.language.has_grammar() ==> final(self)@.pending_since is Some && final(self)@ == old(self)@.edited(edit, final(self)@.pending_since->0),
    {
        if self.language == LanguageId::PlainText || self.language == LanguageId::Markdown {
            return ;
        }
        match &mut self.tree {
            Some(tree) => {
                tree_edit(tree, &edit);
            },
            None => {},
        }
        self.pending_since = Some(instant_now());
    }

    /// Whether a parse is due when `elapsed_ms` milliseconds have passed
    /// since the last edit was queued.
    pub fn reparse_due(&self, elapsed_ms: u128) -> (due: bool)
        ensures
            due == self@.reparse_due(elapsed_ms),
    {
        if self.language == LanguageId::PlainText || self.language == LanguageId::Markdown {
            return false;
        }
        self.pending_since.is_some() && elapsed_ms >= self.debounce_ms as u128
    }

    /// Parses the edits in that wait, where a parse is due when `elapsed_ms`
    /// milliseconds have passed since the last of them was queued. Where
    /// none is due, nothing at all changes. A parse that fails leaves the
    /// tree held, and the edits waiting, as they were.
    pub fn ensure_parsed_after(&mut self, rope: &Rope, elapsed_ms: u128) -> (r: Result<
        (),
        SyntaxError,
    >)
        ensures
            old(self)@.parsed_into(final(self)@, elapsed_ms, r is Ok),
            !old(self)@.reparse_due(elapsed_ms) ==> *final(self) == *old(self),
            old(self)@.reparse_due(elapsed_ms) ==> final(self)@ == old(self)@.ensure_parsed(
                elapsed_ms,
                old(self).parse_of(*rope, false),
            ) && (r is Ok <==> old(self).parse_of(*rope, false) is Some),
            r matches Err(error) ==> error is ParseFailed,
    {
        if !self.reparse_due(elapsed_ms) {
            return Ok(());
        }
        let parsed = parse_rope(&mut self.parser, rope, self.tree.as_ref());
        self.install_tree(parsed)
    }

    /// Parses the edits in that wait, where they have waited for the
    /// debounce interval by the clock. With nothing waiting, and within the
    /// interval, nothing at all changes. A parse that fails leaves the tree
    /// held, and the edits waiting, as they were.
    pub fn ensure_parsed(&mut self, rope: &Rope) -> (r: Result<(), SyntaxError>)
        ensures
            exists|elapsed_ms: u128|
                {
                    &&& #[trigger] old(self)@.parsed_into(final(self)@, elapsed_ms, r is Ok)
                    &&& !old(self)@.reparse_due(elapsed_ms) ==> *final(self) == *old(self)
                    &&& old(self)@.reparse_due(elapsed_ms) ==> final(self)@ == old(self)@.ensure_parsed(elapsed_ms, old(self).parse_of(*rope, false)) && (r is Ok
                        <==> old(self).parse_of(*rope, false) is Some)
                },
            !(old(self)@.language.has_grammar() && old(self)@.pending_since is Some) ==> r is Ok
                && *final(self) == *old(self),
            r matches Err(error) ==> (error is ParseFailed) && final(self)@ == old(self)@,
    {
        let elapsed_ms = match &self.pending_since {
            Some(since) => elapsed_millis(since),
            None => 0,
        };
        let r = self.ensure_parsed_after(rope, elapsed_ms);
        assert(old(self)@.parsed_into(self@, elapsed_ms, r is Ok));
        r
    }

    /// The highlight spans of the bytes of `byte_range`, after the edits
    /// that are due were parsed in. Every span lies within the range; the
    /// spans come in order of their start and then their end. Without a
    /// query or without a tree, and for an empty or reversed range, there
    /// are none.
    pub fn highlight_spans(&mut self, rope: &Rope, byte_range: Range<usize>) -> (r: Result<
        Vec<HighlightSpan>,
        SyntaxError,
    >)
        ensures
            exists|elapsed_ms: u128|
                {
                    &&& #[trigger] old(self)@.parsed_into(final(self)@, elapsed_ms, r is Ok)
                    &&& old(self)@.reparse_due(elapsed_ms) ==> final(self)@ == old(self)@.ensure_parsed(elapsed_ms, old(self).parse_of(*rope, false)) && (r is Ok
                        <==> old(self).parse_of(*rope, false) is Some)
                },
            !(old(self)@.language.has_grammar() && old(self)@.pending_since is Some) ==> r is Ok
                && final(self)@ == old(self)@,
            r matches Err(error) ==> (error is ParseFailed) && final(self)@ == old(self)@,
            r matches Ok(spans) ==> {
                &&& spans_within(spans@, byte_range.start, byte_range.end)
                &&& spans_sorted(spans@)
                &&& !(final(self)@.query is Some && final(self)@.tree is Some) || byte_range.start
                    >= query_end(byte_range.end) ==> spans@.len() == 0
                &&& final(self)@.query is Some && final(self)@.tree is Some && byte_range.start
                    < query_end(byte_range.end) ==> spans@ == spans_of(
                    captures_in(
                        final(self)@.query->0,
                        final(self)@.tree->0,
                        rope_bytes(*rope),
                        byte_range.start,
                        query_end(byte_range.end),
                    ),
                    byte_range.start,
                    byte_range.end,
                )
            },
    {
        let elapsed_ms = match &self.pending_since {
            Some(since) => elapsed_millis(since),
            None => 0,
        };
        match self.ensure_parsed_after(rope, elapsed_ms) {
            Ok(()) => {},
            Err(error) => {
                assert(old(self)@.parsed_into(self@, elapsed_ms, false));
                return Err(error);
            },
        }
        let ghost parsed = self@;
        assert(old(self)@.parsed_into(parsed, elapsed_ms, true));
        let end = if byte_range.end <= QUERY_LIMIT {
            byte_range.end
        } else {
            QUERY_LIMIT
        };
        if byte_range.start >= end {
            return Ok(Vec::new());
        }
        match (&self.query, &self.tree) {
            (Some(query), Some(tree)) => {
                let captures = query_captures(
                    &mut self.cursor,
                    query,
                    tree,
                    rope,
                    byte_range.start,
                    end,
                );
                Ok(spans_from_captures(&captures, byte_range))
            },
            _ => Ok(Vec::new()),
        }
    }
}

} // verus!
