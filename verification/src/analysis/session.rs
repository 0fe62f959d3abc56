//! What is set up once and then shared by every request: the grammar, the
//! legend of token types and the compiled queries.

use vstd::prelude::*;
use tree_sitter::{Language, Query};
use tree_sitter_highlight::HighlightConfiguration;
use crate::analysis::legend::Legend;
use crate::language::highlight::{
    configuration,
    configure,
    highlight_events,
    highlighting_compiles,
    highlights_query,
    reported_names,
    HighlightEvent,
};
use crate::language::tree::{compiled_from, query_compiles};

verus! {

/// The query that finds the names of function definitions.
pub const DEFINITIONS_QUERY: &'static str =
    "(fun_function_definition name: (identifier) @name) (imp_function_definition name: (identifier) @name)";

/// The name under which the grammar is configured for highlighting.
pub const LANGUAGE_NAME: &'static str = "bend";

/// Why a session could not be set up. Each is a defect of the fixed
/// queries, found at start-up.
#[derive(Clone, Copy, Debug, PartialEq, Eq, Structural)]
pub enum SessionError {
    /// The highlighting query does not compile for the grammar.
    Highlights,
    /// The query for definitions does not compile for the grammar.
    Definitions,
}

/// `Language::clone` hands out another handle to the same grammar.
pub assume_specification[ <Language as Clone>::clone ](language: &Language) -> (cloned: Language)
    ensures
        cloned == *language,
;

pub struct Session {
    pub language: Language,
    pub legend: Legend,
    pub highlights: HighlightConfiguration,
    pub definitions: Query,
}

impl Session {
    /// What holds of every session: its legend is that of the built-in
    /// table, and its highlighter reports highlights under the capture names
    /// of the legend, so that a highlight is a row of the table.
    pub open spec fn wf(&self) -> bool {
        &&& self.legend.is_builtin()
        &&& reported_names(self.highlights) == self.legend.names()
    }

    /// The highlight events that this session gives for a text, where the
    /// highlighter gives any.
    pub open spec fn events(&self, text: Seq<u8>) -> Seq<HighlightEvent> {
        highlight_events(self.highlights, text)
    }

    /// Sets up a session for a grammar with the queries that belong to it:
    /// the highlighting query that ships with the grammar, and the query for
    /// definitions.
    ///
    /// The query for definitions is compiled first: its error comes exactly
    /// when it does not compile for the grammar. Whether the highlighting
    /// query compiles is for the grammar's own crate to answer.
    pub fn new(language: Language) -> (made: Result<Session, SessionError>)
        ensures
            made matches Ok(session) ==> session.wf() && session.language == language
                && compiled_from(session.definitions) == DEFINITIONS_QUERY@,
            (made matches Err(SessionError::Definitions)) <==> !query_compiles(
                language,
                DEFINITIONS_QUERY@,
            ),
    {
        Session::with_queries(language, highlights_query(), DEFINITIONS_QUERY)
    }

    /// Sets up a session for a grammar and two queries: builds the legend,
    /// compiles the queries and tells the highlighter the capture names of
    /// the legend.
    ///
    /// There is a session exactly when both queries compile for the
    /// grammar. A query that does not compile is reported, the query for
    /// definitions first. Highlighting is set up without queries for
    /// injected languages and for local variables.
    pub fn with_queries(language: Language, highlights: &str, definitions: &str) -> (made: Result<
        Session,
        SessionError,
    >)
        ensures
            match made {
                Ok(session) => {
                    &&& session.wf()
                    &&& session.language == language
                    &&& compiled_from(session.definitions) == definitions@
                    &&& query_compiles(language, definitions@)
                    &&& highlighting_compiles(language, highlights@, ""@, ""@)
                },
                Err(SessionError::Definitions) => !query_compiles(language, definitions@),
                Err(SessionError::Highlights) => {
                    &&& query_compiles(language, definitions@)
                    &&& !highlighting_compiles(language, highlights@, ""@, ""@)
                },
            },
    {
        let legend = Legend::new();
        let definitions = match Query::new(&language, definitions) {
            Ok(query) => query,
            Err(_) => {
                return Err(SessionError::Definitions);
            },
        };
        let mut highlights = match configuration(
            language.clone(),
            LANGUAGE_NAME,
            highlights,
            "",
            "",
        ) {
            Ok(config) => config,
            Err(_) => {
                return Err(SessionError::Highlights);
            },
        };
        configure(&mut highlights, legend.highlight_names());
        Ok(Session { language, legend, highlights, definitions })
    }
}

} // verus!
