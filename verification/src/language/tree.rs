//! Syntax trees and the queries that are run on them.

use vstd::prelude::*;
use tree_sitter::{Language, Parser, Query, QueryCursor, QueryError, Tree};
use crate::language::bound_grammar;
use crate::language::conversion::{Point, Range};

verus! {

/// `tree_sitter::Tree`: a syntax tree.
#[verifier::external_type_specification]
#[verifier::external_body]
pub struct ExTree(tree_sitter::Tree);

/// `tree_sitter::Query`: compiled patterns.
#[verifier::external_type_specification]
#[verifier::external_body]
pub struct ExQuery(tree_sitter::Query);

/// `tree_sitter::QueryError`: where patterns are malformed.
#[verifier::external_type_specification]
#[verifier::external_body]
pub struct ExQueryError(tree_sitter::QueryError);

/// A node that a query has picked out of a tree: where it lies in the
/// text, in bytes and in rows and columns.
#[derive(Clone, Copy, Debug, PartialEq, Eq, Structural)]
pub struct Capture {
    pub start_byte: usize,
    pub end_byte: usize,
    pub range: Range,
}

/// The text that a tree was parsed from.
pub uninterp spec fn parsed_from(tree: Tree) -> Seq<char>;

/// The nodes that a query picks out of a tree of the given text, in the
/// order in which tree-sitter finds them.
pub uninterp spec fn query_captures(query: Query, tree: Tree, source: Seq<char>) -> Seq<Capture>;

/// The patterns that a query was compiled from.
pub uninterp spec fn compiled_from(query: Query) -> Seq<char>;

/// Whether the patterns of `source` compile for a grammar: whether
/// `Query::new` accepts them.
pub uninterp spec fn query_compiles(language: Language, source: Seq<char>) -> bool;

/// `Query::new` compiles the patterns of `source` for a grammar, or says
/// where they are malformed. Which of the two depends on the grammar and
/// the patterns alone.
pub assume_specification[ Query::new ](language: &Language, source: &str) -> (made: Result<
    Query,
    QueryError,
>)
    ensures
        made is Ok <==> query_compiles(*language, source@),
        made matches Ok(query) ==> compiled_from(query) == source@,
;

/// `Parser::parse` with no earlier tree reads the whole of `text`. It gives
/// no tree where the parser has no grammar or was stopped. The parser keeps
/// its grammar.
#[verifier::external_body]
pub(crate) fn parse(parser: &mut Parser, text: &str) -> (tree: Option<Tree>)
    ensures
        tree matches Some(t) ==> parsed_from(t) == text@,
        bound_grammar(*final(parser)) == bound_grammar(*old(parser)),
{
    parser.parse(text, None)
}

/// `QueryCursor::captures` on the root of `tree`, each capture given by
/// the range of its node.
///
/// Where the query tests the text of a node, that text is read from
/// `source` at the bytes of the node, and reading behind the end of `source`
/// panics. So the tree must have been parsed from `source`: its nodes then
/// lie inside it.
#[verifier::external_body]
pub(crate) fn captures(query: &Query, tree: &Tree, source: &str) -> (found: Vec<Capture>)
    requires
        parsed_from(*tree) == source@,
    ensures
        found@ == query_captures(*query, *tree, source@),
{
    let mut cursor = QueryCursor::new();
    cursor
        .captures(query, tree.root_node(), source.as_bytes())
        .map(|(m, i)| m.captures[i].node.range())
        .map(|r| Capture {
            start_byte: r.start_byte,
            end_byte: r.end_byte,
            range: Range {
                start: Point { row: r.start_point.row, column: r.start_point.column },
                end: Point { row: r.end_point.row, column: r.end_point.column },
            },
        })
        .collect()
}

} // verus!
