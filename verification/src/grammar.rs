//! The parser, the syntax tree and the highlight queries, which this library
//! takes from tree-sitter and its grammars, and the clock. Nothing in this
//! file is proved, and little is promised: what a parse or a query yields is
//! left open, and so is the time.

use crate::chunks::{node_bytes, rope_bytes, rope_chunk_from_byte};
use crate::highlight::Capture;
use crate::model::EditorEdit;
use ropey::Rope;
use std::time::Instant;
use tree_sitter::{
    InputEdit, Language, LanguageError, Node, Parser, Point, Query, QueryCursor,
    StreamingIterator, Tree,
};
use vstd::prelude::*;

verus! {

#[verifier::external_type_specification]
#[verifier::external_body]
pub struct ExParser(tree_sitter::Parser);

#[verifier::external_type_specification]
#[verifier::external_body]
pub struct ExTree(tree_sitter::Tree);

#[verifier::external_type_specification]
#[verifier::external_body]
pub struct ExQuery(tree_sitter::Query);

#[verifier::external_type_specification]
#[verifier::external_body]
pub struct ExQueryCursor(tree_sitter::QueryCursor);

#[verifier::external_type_specification]
#[verifier::external_body]
pub struct ExLanguageError(tree_sitter::LanguageError);

#[verifier::external_type_specification]
#[verifier::external_body]
pub struct ExInstant(std::time::Instant);

/// The languages that a grammar exists for.
#[derive(Debug, Clone, Copy, PartialEq, Eq, Structural)]
pub enum Grammar {
    Cpp,
    Python,
    Hlsl,
}

/// Whether `Parser::set_language` takes the grammar: whether the grammar
/// was generated for a version of tree-sitter that this one reads.
pub uninterp spec fn grammar_accepted(grammar: Grammar) -> bool;

/// The highlight query that the grammar's crate brings along, if it brings
/// one.
pub uninterp spec fn bundled_source(grammar: Grammar) -> Option<Seq<char>>;

/// The message with which `Query::new` refuses `source` as a query of the
/// grammar, if it refuses it.
pub uninterp spec fn query_failure(grammar: Grammar, source: Seq<char>) -> Option<Seq<char>>;

/// The tree that `Tree::edit` makes of `tree`: the same nodes, their
/// positions shifted by what `edit` describes.
pub uninterp spec fn edited_tree(tree: Tree, edit: EditorEdit) -> Tree;

/// The tree that `Parser::parse_with_options` makes of the text `bytes`
/// with `old_tree` to start from, if it makes one.
pub uninterp spec fn parse_outcome(parser: Parser, bytes: Seq<u8>, old_tree: Option<Tree>) -> Option<
    Tree,
>;

/// The query that `Query::new` compiles of `source` for the grammar, where
/// it takes the source.
pub uninterp spec fn compiled_query(grammar: Grammar, source: Seq<char>) -> Query;

/// The captures that `QueryCursor::captures` finds for `query` in `tree`,
/// over the text `bytes`, that touch the bytes from `start` to `end`, in the
/// order in which it finds them, with a cursor that is set up as
/// `QueryCursor::new` leaves it but for this range of bytes.
pub uninterp spec fn captures_in(
    query: Query,
    tree: Tree,
    bytes: Seq<u8>,
    start: usize,
    end: usize,
) -> Seq<Capture>;

/// The highlight query that the grammar's crate brings along, if it brings
/// one.
#[verifier::external_body]
pub(crate) fn bundled_highlights(grammar: Grammar) -> (source: Option<&'static str>)
    ensures
        match source {
            Some(text) => bundled_source(grammar) == Some(text@),
            None => bundled_source(grammar) is None,
        },
{
    match grammar {
        Grammar::Cpp => Some(tree_sitter_cpp::HIGHLIGHT_QUERY),
        Grammar::Python => Some(tree_sitter_python::HIGHLIGHTS_QUERY),
        Grammar::Hlsl => None,
    }
}

/// `Parser::new`.
#[verifier::external_body]
pub(crate) fn parser_new() -> (parser: Parser) {
    Parser::new()
}

/// `Parser::set_language`, with the `LANGUAGE` constant of the grammar's
/// crate. It fails where the grammar was generated for another version of
/// tree-sitter.
#[verifier::external_body]
pub(crate) fn parser_set_language(parser: &mut Parser, grammar: Grammar) -> (r: Result<
    (),
    LanguageError,
>)
    ensures
        r is Ok <==> grammar_accepted(grammar),
{
    let language: Language = match grammar {
        Grammar::Cpp => tree_sitter_cpp::LANGUAGE.into(),
        Grammar::Python => tree_sitter_python::LANGUAGE.into(),
        Grammar::Hlsl => tree_sitter_hlsl::LANGUAGE_HLSL.into(),
    };
    parser.set_language(&language)
}

/// `Query::new`, with the `LANGUAGE` constant of the grammar's crate. It
/// fails, with a message, where `source` is no query of the grammar.
#[verifier::external_body]
pub(crate) fn query_new(grammar: Grammar, source: &str) -> (r: Result<Query, String>)
    ensures
        match r {
            Ok(query) => query_failure(grammar, source@) is None && query == compiled_query(
                grammar,
                source@,
            ),
            Err(message) => query_failure(grammar, source@) == Some(message@),
        },
{
    let language: Language = match grammar {
        Grammar::Cpp => tree_sitter_cpp::LANGUAGE.into(),
        Grammar::Python => tree_sitter_python::LANGUAGE.into(),
        Grammar::Hlsl => tree_sitter_hlsl::LANGUAGE_HLSL.into(),
    };
    Query::new(&language, source).map_err(|error| error.message)
}

/// `QueryCursor::new`.
#[verifier::external_body]
pub(crate) fn query_cursor_new() -> (cursor: QueryCursor) {
    QueryCursor::new()
}

/// `Parser::parse_with_options` on the text of `rope`, which the parser
/// reads piece by piece, with `old_tree` to start from. It yields no tree
/// where the parser has no language.
#[verifier::external_body]
pub(crate) fn parse_rope(parser: &mut Parser, rope: &Rope, old_tree: Option<&Tree>) -> (tree:
    Option<Tree>)
    ensures
        tree == parse_outcome(
            *old(parser),
            rope_bytes(*rope),
            match old_tree {
                Some(old_tree) => Some(*old_tree),
                None => None,
            },
        ),
{
    parser.parse_with_options(&mut |offset, _| rope_chunk_from_byte(rope, offset), old_tree, None)
}

/// `Tree::edit`: shifts the positions in the tree by what `edit` describes.
#[verifier::external_body]
pub(crate) fn tree_edit(tree: &mut Tree, edit: &EditorEdit)
    ensures
        *final(tree) == edited_tree(*old(tree), *edit),
{
    let (start, old_end, new_end) = (edit.start_point, edit.old_end_point, edit.new_end_point);
    tree.edit(
        &InputEdit {
            start_byte: edit.start_byte,
            old_end_byte: edit.old_end_byte,
            new_end_byte: edit.new_end_byte,
            start_position: Point { row: start.row, column: start.column },
            old_end_position: Point { row: old_end.row, column: old_end.column },
            new_end_position: Point { row: new_end.row, column: new_end.column },
        },
    )
}

/// `QueryCursor::set_byte_range` and `QueryCursor::captures`: the captures
/// of `query` in `tree` that touch the bytes from `start` to `end`, each
/// with its name in the query and the byte range of its node. A captured
/// node may reach beyond the range that was asked for. The cursor keeps the
/// range of an earlier call where it is handed a range that is empty,
/// reversed, or not within the 32 bits in which it counts bytes.
#[verifier::external_body]
pub(crate) fn query_captures(
    cursor: &mut QueryCursor,
    query: &Query,
    tree: &Tree,
    rope: &Rope,
    start: usize,
    end: usize,
) -> (captures: Vec<Capture>)
    requires
        start < end <= u32::MAX,
    ensures
        captures@ == captures_in(*query, *tree, rope_bytes(*rope), start, end),
{
    cursor.set_byte_range(start..end);
    let text = |node: Node| std::iter::once(node_bytes(rope, node.start_byte(), node.end_byte()));
    let mut found = cursor.captures(query, tree.root_node(), text);
    let mut captures = Vec::new();
    while let Some((m, index)) = found.next() {
        let capture = m.captures()[*index];
        let name = query.capture_names()[capture.index as usize].to_string();
        let (start_byte, end_byte) = (capture.node.start_byte(), capture.node.end_byte());
        captures.push(Capture { name, start_byte, end_byte });
    }
    captures
}

/// `Instant::now`.
#[verifier::external_body]
pub(crate) fn instant_now() -> (now: Instant) {
    Instant::now()
}

/// `Instant::elapsed`, in whole milliseconds.
#[verifier::external_body]
pub(crate) fn elapsed_millis(since: &Instant) -> (millis: u128) {
    since.elapsed().as_millis()
}

} // verus!
