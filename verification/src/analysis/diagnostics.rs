//! Compiler diagnostics, made ready for the editor.
//!
//! The compiler reports each diagnostic with a message that may carry
//! terminal styling, a severity, and where it comes from: a definition named
//! by its symbol, or something without a name. A diagnostic may also carry a
//! span of the text. For the editor the message is stripped of its styling,
//! the severity is mapped, and a range is chosen: the name of the definition
//! where the origin names one that the document defines, else the span, else
//! the start of the document.

use vstd::prelude::*;
use vstd::string::StringExecFns;
use crate::analysis::document::Document;
use crate::analysis::session::Session;
use crate::language::conversion::Range;
use crate::language::tree::{captures, query_captures, Capture};
use crate::protocol;
use crate::utils::color_wrapper::{strip_all, treat_colors};
use crate::utils::rope::{rope_to_string, text_bytes};

verus! {

/// How grave the compiler takes a diagnostic to be.
#[derive(Clone, Copy, Debug, PartialEq, Eq, Structural)]
pub enum Severity {
    Allow,
    Warning,
    Error,
}

/// Where a diagnostic comes from.
#[derive(Clone, Debug)]
pub enum DiagnosticOrigin {
    /// Reading the source text.
    Parsing,
    /// The relation between several definitions.
    Book,
    /// The rule with this name.
    Rule(String),
    /// The function with this name.
    Function(String),
    /// The compiled net with this name.
    Inet(String),
    /// Reading back a result.
    Readback,
}

/// A line and a character in that line, both from zero.
#[derive(Clone, Copy, Debug, PartialEq, Eq, Structural)]
pub struct TextLocation {
    pub line: usize,
    pub character: usize,
}

/// A stretch of text between two locations.
#[derive(Clone, Copy, Debug, PartialEq, Eq, Structural)]
pub struct TextSpan {
    pub start: TextLocation,
    pub end: TextLocation,
}

/// One diagnostic of the compiler.
#[derive(Clone, Debug)]
pub struct Diagnostic {
    /// The message as the compiler displays it, styling included.
    pub message: String,
    pub severity: Severity,
    pub span: Option<TextSpan>,
}

/// The diagnostics of one check, grouped by where they come from.
#[derive(Clone, Debug)]
pub struct Diagnostics {
    pub diagnostics: Vec<(DiagnosticOrigin, Vec<Diagnostic>)>,
}

/// The severity that the editor shows for a severity of the compiler.
pub open spec fn mapped_severity(severity: Severity) -> protocol::DiagnosticSeverity {
    match severity {
        Severity::Allow => protocol::DiagnosticSeverity::Hint,
        Severity::Warning => protocol::DiagnosticSeverity::Warning,
        Severity::Error => protocol::DiagnosticSeverity::Error,
    }
}

/// The symbol that an origin names, if it names one.
pub open spec fn origin_symbol(origin: DiagnosticOrigin) -> Option<Seq<char>> {
    match origin {
        DiagnosticOrigin::Rule(name) => Some(name@),
        DiagnosticOrigin::Function(name) => Some(name@),
        DiagnosticOrigin::Inet(name) => Some(name@),
        _ => None,
    }
}

/// The editor range of a span, its coordinates cut to 32 bits, and the
/// empty range at the start of the document where there is no span.
pub open spec fn span_range(span: Option<TextSpan>) -> protocol::Range {
    match span {
        Some(span) => protocol::Range {
            start: protocol::Position {
                line: span.start.line as u32,
                character: span.start.character as u32,
            },
            end: protocol::Position {
                line: span.end.line as u32,
                character: span.end.character as u32,
            },
        },
        None => protocol::Range::spec_origin(),
    }
}

/// Whether a capture lies inside the source and covers exactly the bytes
/// of `name`.
pub open spec fn capture_reads(capture: Capture, source: Seq<u8>, name: Seq<u8>) -> bool {
    capture.start_byte <= capture.end_byte <= source.len() && source.subrange(
        capture.start_byte as int,
        capture.end_byte as int,
    ) == name
}

/// The index of the first capture from `from` on that reads `name`.
pub open spec fn first_reading(
    captures: Seq<Capture>,
    source: Seq<u8>,
    name: Seq<u8>,
    from: int,
) -> Option<int>
    decreases captures.len() - from,
{
    if from < 0 || from >= captures.len() {
        None
    } else if capture_reads(captures[from], source, name) {
        Some(from)
    } else {
        first_reading(captures, source, name, from + 1)
    }
}

/// The range of the name of the first definition, in the order of the
/// captures, whose name reads `name`.
pub open spec fn definition_among(captures: Seq<Capture>, source: Seq<u8>, name: Seq<u8>) -> Option<
    protocol::Range,
> {
    match first_reading(captures, source, name, 0) {
        Some(k) => Some(captures[k].range.to_protocol()),
        None => None,
    }
}

/// The range of the name of the definition of `name` in a document: none
/// where the document has no tree or does not define the name.
pub open spec fn definition_range(session: Session, doc: Document, name: Seq<char>) -> Option<
    protocol::Range,
> {
    match doc.tree {
        Some(tree) => definition_among(
            query_captures(session.definitions, tree, doc.text()),
            text_bytes(doc.text()),
            text_bytes(name),
        ),
        None => None,
    }
}

/// The range at which a diagnostic is shown.
pub open spec fn resolved_range(
    session: Session,
    doc: Document,
    origin: DiagnosticOrigin,
    span: Option<TextSpan>,
) -> protocol::Range {
    match origin_symbol(origin) {
        Some(name) => match definition_range(session, doc, name) {
            Some(range) => range,
            None => span_range(span),
        },
        None => span_range(span),
    }
}

/// The diagnostic that the editor is shown for a diagnostic of the compiler.
pub open spec fn resolved(
    session: Session,
    doc: Document,
    origin: DiagnosticOrigin,
    diag: Diagnostic,
) -> protocol::DiagnosticView {
    protocol::DiagnosticView {
        range: resolved_range(session, doc, origin, diag.span),
        severity: mapped_severity(diag.severity),
        source: "bend"@,
        message: strip_all(diag.message@),
    }
}

/// The diagnostics of all groups in one list, each with the origin of its
/// group: group by group, and inside a group in its order.
pub open spec fn flattened(groups: Seq<(DiagnosticOrigin, Vec<Diagnostic>)>) -> Seq<
    (DiagnosticOrigin, Diagnostic),
>
    decreases groups.len(),
{
    if groups.len() == 0 {
        Seq::empty()
    } else {
        flattened(groups.drop_last()) + Seq::new(
            groups.last().1@.len(),
            |i: int| (groups.last().0, groups.last().1@[i]),
        )
    }
}

/// Whether `shown` holds, one for one and in order, what the editor is
/// shown for `reported`.
pub open spec fn shows(
    shown: Seq<protocol::Diagnostic>,
    reported: Seq<(DiagnosticOrigin, Diagnostic)>,
    session: Session,
    doc: Document,
) -> bool {
    &&& shown.len() == reported.len()
    &&& forall|i: int|
        0 <= i < shown.len() ==> (#[trigger] shown[i])@ == resolved(
            session,
            doc,
            reported[i].0,
            reported[i].1,
        )
}

/// The outcome of a check, whether it ended well or not: the compiler
/// reports its findings either way, and both are treated alike.
pub fn unify<T>(outcome: Result<T, T>) -> (found: T)
    ensures
        found == match outcome {
            Ok(d) => d,
            Err(d) => d,
        },
{
    match outcome {
        Ok(d) => d,
        Err(d) => d,
    }
}

/// Maps a severity of the compiler to one of the editor.
pub fn lsp_severity(severity: Severity) -> (mapped: protocol::DiagnosticSeverity)
    ensures
        mapped == mapped_severity(severity),
{
    match severity {
        Severity::Allow => protocol::DiagnosticSeverity::Hint,
        Severity::Warning => protocol::DiagnosticSeverity::Warning,
        Severity::Error => protocol::DiagnosticSeverity::Error,
    }
}

/// The mapping of severities gives every severity one target, no two the
/// same, and never `Information`.
pub proof fn lemma_severity_mapping(a: Severity, b: Severity)
    ensures
        mapped_severity(a) == mapped_severity(b) ==> a == b,
        mapped_severity(a) != protocol::DiagnosticSeverity::Information,
        mapped_severity(Severity::Allow) == protocol::DiagnosticSeverity::Hint,
        mapped_severity(Severity::Warning) == protocol::DiagnosticSeverity::Warning,
        mapped_severity(Severity::Error) == protocol::DiagnosticSeverity::Error,
{
}

/// The editor range of a span of the compiler.
pub fn span_to_range(span: &Option<TextSpan>) -> (range: protocol::Range)
    ensures
        range == span_range(*span),
{
    match span {
        Some(span) => protocol::Range {
            start: protocol::Position {
                line: #[verifier::truncate] (span.start.line as u32),
                character: #[verifier::truncate] (span.start.character as u32),
            },
            end: protocol::Position {
                line: #[verifier::truncate] (span.end.line as u32),
                character: #[verifier::truncate] (span.end.character as u32),
            },
        },
        None => protocol::Range::origin(),
    }
}

/// The editor range of a range of the syntax tree.
pub fn ts_range_to_lsp(range: Range) -> (converted: protocol::Range)
    ensures
        converted == range.to_protocol(),
{
    protocol::Range {
        start: protocol::Position {
            line: #[verifier::truncate] (range.start.row as u32),
            character: #[verifier::truncate] (range.start.column as u32),
        },
        end: protocol::Position {
            line: #[verifier::truncate] (range.end.row as u32),
            character: #[verifier::truncate] (range.end.column as u32),
        },
    }
}

/// Whether a capture covers exactly the bytes of `name` in the source.
fn reads(capture: &Capture, source: &[u8], name: &[u8]) -> (same: bool)
    ensures
        same == capture_reads(*capture, source@, name@),
{
    if capture.start_byte > capture.end_byte || capture.end_byte > source.len() {
        return false;
    }
    let len = capture.end_byte - capture.start_byte;
    if len != name.len() {
        return false;
    }
    let ghost covered = source@.subrange(capture.start_byte as int, capture.end_byte as int);
    let mut i: usize = 0;
    while i < len
        invariant
            i <= len,
            len == name.len(),
            len == capture.end_byte - capture.start_byte,
            capture.end_byte <= source.len(),
            covered == source@.subrange(capture.start_byte as int, capture.end_byte as int),
            forall|j: int| 0 <= j < i ==> covered[j] == name@[j],
        decreases len - i,
    {
        if source[capture.start_byte + i] != name[i] {
            return false;
        }
        i = i + 1;
    }
    assert(covered =~= name@);
    true
}

/// Picks, among the captured names of definitions, the first that reads
/// `name`, and gives its range.
pub fn definition_in(captures: &Vec<Capture>, source: &[u8], name: &[u8]) -> (found: Option<
    protocol::Range,
>)
    ensures
        found == definition_among(captures@, source@, name@),
{
    let mut k: usize = 0;
    while k < captures.len()
        invariant
            k <= captures.len(),
            first_reading(captures@, source@, name@, 0) == first_reading(
                captures@,
                source@,
                name@,
                k as int,
            ),
        decreases captures.len() - k,
    {
        if reads(&captures[k], source, name) {
            return Some(ts_range_to_lsp(captures[k].range));
        }
        k = k + 1;
    }
    None
}

/// Diagnostics with `Rule`, `Function` or `Inet` origins may have their
/// spans including entire definitions, while we would only like to
/// highlight their names.
///
/// The document must hold no stale tree: the query reads the text of the
/// tree's nodes from the document's text.
pub fn find_def(session: &Session, doc: &Document, name: &str) -> (found: Option<protocol::Range>)
    requires
        doc.wf(),
    ensures
        found == definition_range(*session, *doc, name@),
{
    match &doc.tree {
        Some(tree) => {
            let source = rope_to_string(&doc.text);
            let names = captures(&session.definitions, tree, source.as_str());
            definition_in(&names, source.as_str().as_bytes(), name.as_bytes())
        },
        None => None,
    }
}

/// Makes one diagnostic of the compiler ready for the editor.
pub fn treat_diagnostic(
    session: &Session,
    doc: &Document,
    origin: &DiagnosticOrigin,
    diag: &Diagnostic,
) -> (shown: protocol::Diagnostic)
    requires
        doc.wf(),
    ensures
        shown@ == resolved(*session, *doc, *origin, *diag),
{
    let named = match origin {
        DiagnosticOrigin::Rule(name) => find_def(session, doc, name.as_str()),
        DiagnosticOrigin::Function(name) => find_def(session, doc, name.as_str()),
        DiagnosticOrigin::Inet(name) => find_def(session, doc, name.as_str()),
        _ => None,
    };
    let range = match named {
        Some(range) => range,
        None => span_to_range(&diag.span),
    };
    protocol::Diagnostic {
        range,
        severity: lsp_severity(diag.severity),
        source: String::from_str("bend"),
        message: treat_colors(diag.message.as_str()),
    }
}

/// Makes all diagnostics of a check ready for the editor, in the order in
/// which the check reports them.
pub fn lsp_diagnostics(session: &Session, doc: &Document, diagnostics: &Diagnostics) -> (shown: Vec<
    protocol::Diagnostic,
>)
    requires
        doc.wf(),
    ensures
        shows(shown@, flattened(diagnostics.diagnostics@), *session, *doc),
{
    let mut shown: Vec<protocol::Diagnostic> = Vec::new();
    let mut g: usize = 0;
    while g < diagnostics.diagnostics.len()
        invariant
            g <= diagnostics.diagnostics.len(),
            doc.wf(),
            shows(shown@, flattened(diagnostics.diagnostics@.take(g as int)), *session, *doc),
        decreases diagnostics.diagnostics.len() - g,
    {
        let group = &diagnostics.diagnostics[g];
        let ghost before = flattened(diagnostics.diagnostics@.take(g as int));
        let mut i: usize = 0;
        while i < group.1.len()
            invariant
                i <= group.1.len(),
                doc.wf(),
                *group == diagnostics.diagnostics@[g as int],
                before.len() + i == shown.len(),
                shows(
                    shown@,
                    before + Seq::new(i as nat, |k: int| (group.0, group.1@[k])),
                    *session,
                    *doc,
                ),
            decreases group.1.len() - i,
        {
            let one = treat_diagnostic(session, doc, &group.0, &group.1[i]);
            shown.push(one);
            i = i + 1;
        }
        proof {
            assert(diagnostics.diagnostics@.take(g + 1).drop_last() =~= diagnostics.diagnostics@.take(
                g as int,
            ));
        }
        g = g + 1;
    }
    assert(diagnostics.diagnostics@.take(g as int) =~= diagnostics.diagnostics@);
    shown
}

} // verus!
