//! What is specific to the Bend grammar.
//!
//! Parsing is done by tree-sitter with the grammar of `tree_sitter_bend`.
//! Verus does not look inside either: the types are carried through as they
//! are, and what is stated of the calls is believed without proof.

pub mod conversion;
pub mod highlight;
pub mod tree;

use vstd::prelude::*;
use tree_sitter::{Language, LanguageError, Parser};

verus! {

/// `tree_sitter::Language`: a grammar.
#[verifier::external_type_specification]
#[verifier::external_body]
pub struct ExLanguage(tree_sitter::Language);

/// `tree_sitter::LanguageError`: why a grammar was refused.
#[verifier::external_type_specification]
#[verifier::external_body]
pub struct ExLanguageError(tree_sitter::LanguageError);

/// `tree_sitter::Parser`: a parser and the grammar bound to it.
#[verifier::external_type_specification]
#[verifier::external_body]
pub struct ExParser(tree_sitter::Parser);

/// The version of tree-sitter's format that a grammar was generated for:
/// what `Language::version` gives.
pub uninterp spec fn grammar_version(language: Language) -> int;

/// The versions of grammars that the parser library reads, from its
/// `MIN_COMPATIBLE_LANGUAGE_VERSION` to its `LANGUAGE_VERSION`.
pub open spec fn readable(version: int) -> bool {
    13 <= version <= 14
}

/// `tree_sitter_bend::language` hands out the grammar, which was generated
/// for version 14 of the format.
pub assume_specification[ tree_sitter_bend::language ]() -> (language: Language)
    ensures
        grammar_version(language) == 14,
;

/// The grammar that `Parser::set_language` last accepted for a parser, and
/// none where it has accepted none yet.
pub uninterp spec fn bound_grammar(parser: Parser) -> Option<Language>;

/// `Parser::new` makes a parser that has no grammar yet.
pub assume_specification[ Parser::new ]() -> (parser: Parser)
    ensures
        bound_grammar(parser) is None,
;

/// `Parser::set_language` binds a grammar to the parser. It refuses a
/// grammar exactly when the version it was generated for is not one that
/// the library reads.
pub assume_specification[ Parser::set_language ](
    parser: &mut Parser,
    language: &Language,
) -> (outcome: Result<(), LanguageError>)
    ensures
        outcome is Ok <==> readable(grammar_version(*language)),
        outcome is Ok ==> bound_grammar(*final(parser)) == Some(*language),
        outcome is Err ==> bound_grammar(*final(parser)) == bound_grammar(*old(parser)),
;

/// Tree sitter representation for the Bend language.
///
/// The grammar was generated for a version of the format that the parser
/// library reads.
pub fn bend() -> (language: Language)
    ensures
        grammar_version(language) == 14,
        readable(grammar_version(language)),
{
    tree_sitter_bend::language()
}

/// Whether a parser is bound to a grammar of the version that the Bend
/// grammar has.
pub open spec fn bound_to_bend(parser: Parser) -> bool {
    bound_grammar(parser) matches Some(language) && grammar_version(language) == 14
}

/// Returns a new tree sitter parser for Bend.
///
/// The parser library reads the grammar, so there is always a parser, and
/// it is bound to the grammar.
pub fn bend_parser() -> (made: Result<Parser, LanguageError>)
    ensures
        made matches Ok(parser) && bound_to_bend(parser),
{
    let mut parser = Parser::new();
    match parser.set_language(&bend()) {
        Ok(()) => Ok(parser),
        Err(e) => Err(e),
    }
}

} // verus!
