//! The stream of highlight events that `tree_sitter_highlight` makes of a text.

use vstd::prelude::*;
use tree_sitter::{Language, QueryError};
use tree_sitter_highlight::{HighlightConfiguration, Highlighter};

verus! {

/// `tree_sitter_highlight::HighlightConfiguration`: a grammar with its
/// compiled highlighting queries and the names to report highlights under.
#[verifier::external_type_specification]
#[verifier::external_body]
pub struct ExHighlightConfiguration(tree_sitter_highlight::HighlightConfiguration);

/// `tree_sitter_highlight::Highlighter`: what highlighting reuses from one
/// run to the next.
#[verifier::external_type_specification]
#[verifier::external_body]
pub struct ExHighlighter(tree_sitter_highlight::Highlighter);

/// One step of a highlighted text.
///
/// `Start` opens a highlight, named by its index in the list of names that
/// the configuration was given; `End` closes the one opened last; `Source`
/// is a stretch of the text, in bytes, that lies under the highlights open
/// at that moment. `Failed` stands for a step that the highlighter could not
/// make.
#[derive(Clone, Copy, Debug, PartialEq, Eq, Structural)]
pub enum HighlightEvent {
    Start(usize),
    End,
    Source { start: usize, end: usize },
    Failed,
}

/// Where the last stretch of source among some events ends, or 0 where
/// there is none.
pub open spec fn reach(events: Seq<HighlightEvent>) -> int
    decreases events.len(),
{
    if events.len() == 0 {
        0
    } else {
        match events.last() {
            HighlightEvent::Source { start, end } => end as int,
            _ => reach(events.drop_last()),
        }
    }
}

/// Whether the stretches of source come in the order of the document: none
/// ends before it starts, and each starts at or behind the end of the one
/// before.
pub open spec fn in_document_order(events: Seq<HighlightEvent>) -> bool
    decreases events.len(),
{
    events.len() == 0 || (in_document_order(events.drop_last()) && match events.last() {
        HighlightEvent::Source { start, end } => reach(events.drop_last()) <= start <= end,
        _ => true,
    })
}

/// The events that a configuration gives for a text, where the
/// highlighter gives any.
pub uninterp spec fn highlight_events(config: HighlightConfiguration, source: Seq<u8>) -> Seq<
    HighlightEvent,
>;

/// `Highlighter::new` makes a highlighter with nothing cached.
pub assume_specification[ Highlighter::new ]() -> Highlighter;

/// The highlighting query that ships with the grammar.
#[verifier::external_body]
pub(crate) fn highlights_query() -> &'static str {
    tree_sitter_bend::HIGHLIGHTS_QUERY
}

/// The names that a configuration reports highlights under: those that
/// `HighlightConfiguration::configure` was last given, and none before.
pub uninterp spec fn reported_names(config: HighlightConfiguration) -> Seq<Seq<char>>;

/// The characters of each of some names.
pub open spec fn texts(names: Seq<&'static str>) -> Seq<Seq<char>> {
    Seq::new(names.len(), |i: int| names[i]@)
}

/// Whether three queries compile for a grammar as one highlighting
/// configuration: whether `HighlightConfiguration::new` accepts them.
pub uninterp spec fn highlighting_compiles(
    language: Language,
    highlights: Seq<char>,
    injections: Seq<char>,
    locals: Seq<char>,
) -> bool;

/// `HighlightConfiguration::new` compiles the three queries for a grammar,
/// or hands on the error of the query that does not compile. Which of the
/// two depends on the grammar and the queries alone; the name is only kept.
#[verifier::external_body]
pub(crate) fn configuration(
    language: Language,
    name: &str,
    highlights: &str,
    injections: &str,
    locals: &str,
) -> (made: Result<HighlightConfiguration, QueryError>)
    ensures
        made is Ok <==> highlighting_compiles(language, highlights@, injections@, locals@),
        made matches Ok(config) ==> reported_names(config).len() == 0,
{
    HighlightConfiguration::new(language, name, highlights, injections, locals)
}

/// `HighlightConfiguration::configure` sets the names that highlights are
/// reported under: a `Start` event carries an index into `names`.
#[verifier::external_body]
pub(crate) fn configure(config: &mut HighlightConfiguration, names: &Vec<&'static str>)
    ensures
        reported_names(*final(config)) == texts(names@),
{
    config.configure(names)
}

/// `Highlighter::highlight` without cancellation and without injected
/// languages, its events collected.
///
/// Whether there are events is not stated: the highlighter parses with a
/// parser of its own, which may have been given a time limit. Where there
/// are events, they depend on the configuration and the text alone. The
/// highlighter walks the text once from its start: each stretch of source
/// that it reports is not empty and starts where the one before ended.
#[verifier::external_body]
pub(crate) fn highlight(
    highlighter: &mut Highlighter,
    config: &HighlightConfiguration,
    source: &[u8],
) -> (events: Option<Vec<HighlightEvent>>)
    ensures
        events matches Some(ev) ==> ev@ == highlight_events(*config, source@),
        events matches Some(ev) ==> in_document_order(ev@),
{
    let events = highlighter.highlight(config, source, None, |_| None).ok()?;
    Some(
        events.map(
            |event|
                match event {
                    Ok(tree_sitter_highlight::HighlightEvent::HighlightStart(h)) => HighlightEvent::Start(h.0),
                    Ok(tree_sitter_highlight::HighlightEvent::HighlightEnd) => HighlightEvent::End,
                    Ok(tree_sitter_highlight::HighlightEvent::Source { start, end }) => HighlightEvent::Source { start, end },
                    Err(_) => HighlightEvent::Failed,
                },
        ).collect(),
    )
}

} // verus!
