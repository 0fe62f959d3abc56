//! One open document: its text, its syntax tree and the parser that made it.

use vstd::prelude::*;
use ropey::Rope;
use tree_sitter::{Parser, Tree};
use tree_sitter_highlight::Highlighter;
use crate::language::{bend_parser, bound_to_bend};
use crate::language::tree::{parse, parsed_from};
use crate::utils::rope::rope_text;

verus! {

/// Why a document could not be made.
#[derive(Clone, Copy, Debug, PartialEq, Eq, Structural)]
pub enum DocumentError {
    /// The grammar was generated for another version of the parser library.
    IncompatibleGrammar,
}

pub struct Document {
    pub url: String,
    pub text: Rope,
    pub tree: Option<Tree>,
    pub parser: Parser,
    pub highlighter: Highlighter,
}

impl Document {
    /// The characters of the document.
    pub open spec fn text(&self) -> Seq<char> {
        rope_text(self.text)
    }

    /// A document holds no stale tree: where it has a tree, the tree was
    /// parsed from the whole of its present text.
    pub open spec fn wf(&self) -> bool {
        self.tree matches Some(tree) ==> parsed_from(tree) == self.text()
    }

    /// Whether the parser of the document is bound to the grammar.
    pub open spec fn bound(&self) -> bool {
        bound_to_bend(self.parser)
    }

    /// Create an empty document for `url`.
    ///
    /// There is always a document: the parser library reads the grammar.
    pub fn new(url: String) -> (made: Result<Document, DocumentError>)
        ensures
            made is Ok,
            made matches Ok(doc) ==> doc.url == url && doc.text() == Seq::<char>::empty()
                && doc.tree is None && doc.wf() && doc.bound(),
    {
        match bend_parser() {
            Ok(parser) => Ok(
                Document {
                    url,
                    text: Rope::new(),
                    tree: None,
                    parser,
                    highlighter: Highlighter::new(),
                },
            ),
            Err(_) => Err(DocumentError::IncompatibleGrammar),
        }
    }

    /// Create a new document with text for `url`.
    ///
    /// There is always a document; whether it has a tree is for the parser
    /// to say.
    pub fn new_with_text(url: String, text: &str) -> (made: Result<Document, DocumentError>)
        ensures
            made is Ok,
            made matches Ok(doc) ==> doc.url == url && doc.text() == text@ && doc.wf()
                && doc.bound(),
    {
        match Document::new(url) {
            Ok(mut doc) => {
                doc.update_whole_text(text);
                Ok(doc)
            },
            Err(e) => Err(e),
        }
    }

    /// Update the document with entirely new text.
    ///
    /// The text is parsed anew as a whole and the old tree is dropped. Where
    /// the parser gives no tree, the document has none.
    pub fn update_whole_text(&mut self, text: &str)
        ensures
            final(self).text() == text@,
            final(self).url == old(self).url,
            final(self).wf(),
            final(self).bound() == old(self).bound(),
    {
        self.text = Rope::from_str(text);
        self.tree = parse(&mut self.parser, text);
    }
}

} // verus!
