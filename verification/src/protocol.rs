//! Plain values exchanged with the editor.

use vstd::prelude::*;

verus! {

/// A place in a document as the editor counts it: a line and an offset in
/// that line, both from zero.
#[derive(Clone, Copy, Debug, PartialEq, Eq, Structural)]
pub struct Position {
    pub line: u32,
    pub character: u32,
}

impl Position {
    pub fn new(line: u32, character: u32) -> (p: Position)
        ensures
            p.line == line,
            p.character == character,
    {
        Position { line, character }
    }
}

/// A stretch of a document between two positions.
#[derive(Clone, Copy, Debug, PartialEq, Eq, Structural)]
pub struct Range {
    pub start: Position,
    pub end: Position,
}

impl Range {
    pub fn new(start: Position, end: Position) -> (r: Range)
        ensures
            r.start == start,
            r.end == end,
    {
        Range { start, end }
    }

    /// The empty range at the start of the document.
    pub open spec fn spec_origin() -> Range {
        Range {
            start: Position { line: 0, character: 0 },
            end: Position { line: 0, character: 0 },
        }
    }

    pub fn origin() -> (r: Range)
        ensures
            r == Range::spec_origin(),
    {
        Range {
            start: Position { line: 0, character: 0 },
            end: Position { line: 0, character: 0 },
        }
    }
}

/// One entry of a delta-encoded token stream: where the token starts,
/// counted from the token before it, how long it is, and what it is.
///
/// `delta_line` is the number of lines between this token and the one
/// before. `delta_start` is the start column, counted from the start column
/// of the token before where both stand on one line, and from the start of
/// the line otherwise. The first token counts from line 0, column 0.
#[derive(Clone, Copy, Debug, PartialEq, Eq, Structural)]
pub struct SemanticToken {
    pub delta_line: u32,
    pub delta_start: u32,
    pub length: u32,
    pub token_type: u32,
    pub token_modifiers_bitset: u32,
}

/// How grave the editor shows a diagnostic to be.
#[derive(Clone, Copy, Debug, PartialEq, Eq, Structural)]
pub enum DiagnosticSeverity {
    Error,
    Warning,
    Information,
    Hint,
}

/// A diagnostic as the editor shows it: a plain message at a range.
#[derive(Clone, Debug)]
pub struct Diagnostic {
    pub range: Range,
    pub severity: DiagnosticSeverity,
    /// Who reports the diagnostic.
    pub source: String,
    pub message: String,
}

/// What a diagnostic holds, its strings as sequences of characters.
pub struct DiagnosticView {
    pub range: Range,
    pub severity: DiagnosticSeverity,
    pub source: Seq<char>,
    pub message: Seq<char>,
}

impl View for Diagnostic {
    type V = DiagnosticView;

    open spec fn view(&self) -> DiagnosticView {
        DiagnosticView {
            range: self.range,
            severity: self.severity,
            source: self.source@,
            message: self.message@,
        }
    }
}

} // verus!
