//! Semantic tokens for syntax highlighting.
//!
//! The highlighter turns a text into a stream of events: a highlight opens,
//! a stretch of source goes by, a highlight closes. Highlights nest, and a
//! stretch of source belongs to the one opened last. Each stretch under a
//! highlight whose name has a token type becomes one token, placed by line
//! and column and written as a difference to the token before it.

use vstd::prelude::*;
use ropey::Rope;
use crate::analysis::document::Document;
use crate::analysis::legend::Legend;
use crate::analysis::session::Session;
use crate::analysis::window::{lemma_range_selects, range_selects};
use crate::language::highlight::{highlight, in_document_order, HighlightEvent};
use crate::protocol;
use crate::protocol::SemanticToken;
use crate::utils::rope::{
    char_of_byte,
    char_of_line,
    byte_of_line,
    line_count,
    line_of_byte,
    rope_text,
    rope_to_string,
    text_bytes,
    utf16_len,
};

verus! {

/// Bytes that count as white space at the start of a token: the white space
/// of Latin-1, each byte read as the character of the same number.
pub open spec fn is_space(b: u8) -> bool {
    (9 <= b && b <= 13) || b == 32 || b == 0x85 || b == 0xA0
}

/// The first offset from `start` on, and before `end`, at which `bytes`
/// holds no white space; `end` where there is none. A token never starts in
/// white space.
pub open spec fn trim_start(bytes: Seq<u8>, start: int, end: int) -> int
    decreases end - start,
{
    if start < end && 0 <= start < bytes.len() && is_space(bytes[start]) {
        trim_start(bytes, start + 1, end)
    } else {
        start
    }
}

/// The line and the column, in UTF-16 code units from the start of the
/// line, of a byte offset into a text. Both are cut to 32 bits. There is
/// none for an offset behind the end of the text, nor where the text does
/// not place the offset at or behind the start of its line.
pub open spec fn place_of(text: Seq<char>, byte: int) -> Option<(u32, u32)> {
    let line = line_of_byte(text, byte) as u32;
    let first = char_of_line(text, line as int);
    let here = char_of_byte(text, byte);
    if 0 <= byte <= text_bytes(text).len() && line <= line_count(text) && 0 <= first <= text.len()
        && 0 <= here <= text.len() {
        let first_unit = utf16_len(text.take(first)) as u32;
        let here_unit = utf16_len(text.take(here)) as u32;
        if first_unit <= here_unit {
            Some((line, (here_unit - first_unit) as u32))
        } else {
            None
        }
    } else {
        None
    }
}

/// Whether place `a` does not lie behind place `b`, reading line first.
pub open spec fn place_le(a: (u32, u32), b: (u32, u32)) -> bool {
    a.0 < b.0 || (a.0 == b.0 && a.1 <= b.1)
}

/// Whether the text gives every byte offset a place, and a later offset
/// never an earlier place.
pub open spec fn places_ordered(text: Seq<char>) -> bool {
    forall|a: int, b: int|
        0 <= a <= b <= text_bytes(text).len() ==> place_of(text, a) is Some && place_of(
            text,
            b,
        ) is Some && place_le(
            (#[trigger] place_of(text, a)).unwrap(),
            (#[trigger] place_of(text, b)).unwrap(),
        )
}

/// The token for the bytes from `start` to `end`, counted from the place
/// `previous` of the token before. There is none where the start has no
/// place, or lies before `previous`: such a token would put the stream out
/// of order.
pub open spec fn token_at(
    text: Seq<char>,
    start: int,
    end: int,
    token_type: u32,
    previous: (u32, u32),
) -> Option<SemanticToken> {
    match place_of(text, start) {
        Some(place) => if place_le(previous, place) {
            Some(
                SemanticToken {
                    delta_line: (place.0 - previous.0) as u32,
                    delta_start: if place.0 == previous.0 {
                        (place.1 - previous.1) as u32
                    } else {
                        place.1
                    },
                    length: (end - start) as u32,
                    token_type,
                    token_modifiers_bitset: 0,
                },
            )
        } else {
            None
        },
        None => None,
    }
}

/// The stretch of source that a token was made of, and the token type it
/// was given.
pub struct Origin {
    /// Where the stretch starts, in bytes.
    pub start: int,
    /// Where the stretch ends, in bytes.
    pub end: int,
    /// Where the token starts: behind the white space at the start of the
    /// stretch.
    pub from: int,
    pub token_type: u32,
}

/// What an encoding has come to after some events.
pub struct Encoding {
    /// The highlights that are open, the innermost last.
    pub stack: Seq<usize>,
    /// The place of the last token, or line 0, column 0 before the first.
    pub previous: (u32, u32),
    /// The tokens so far.
    pub tokens: Seq<SemanticToken>,
    /// For each token, what it was made of.
    pub origins: Seq<Origin>,
    /// Whether a stretch behind the window has been met, which ends the
    /// encoding.
    pub stopped: bool,
}

/// What an encoding works with.
pub struct Context {
    /// The text that the events speak of.
    pub text: Seq<char>,
    /// For each highlight, the numeric id of its token type.
    pub indices: Seq<u32>,
    /// The bytes that tokens are asked for, from the first up to the second
    /// and without it, or `None` for the whole text.
    pub window: Option<(int, int)>,
}

/// Whether the stretch from `start` up to `end` lies before the window.
pub open spec fn before_window(window: Option<(int, int)>, start: int, end: int) -> bool {
    window matches Some(w) && end <= w.0
}

/// Whether the stretch from `start` up to `end` lies behind the window.
pub open spec fn behind_window(window: Option<(int, int)>, start: int, end: int) -> bool {
    window matches Some(w) && w.1 <= start
}

/// Whether the stretch from `start` up to `end` has a byte in the window.
pub open spec fn in_window(window: Option<(int, int)>, start: int, end: int) -> bool {
    !before_window(window, start, end) && !behind_window(window, start, end)
}

/// The token type of the innermost open highlight, if there is one and it
/// has a token type.
pub open spec fn current_type(stack: Seq<usize>, indices: Seq<u32>) -> Option<u32> {
    if stack.len() > 0 && stack.last() < indices.len() {
        Some(indices[stack.last() as int])
    } else {
        None
    }
}

/// The encoding before any event.
pub open spec fn start_of_encoding() -> Encoding {
    Encoding {
        stack: Seq::empty(),
        previous: (0, 0),
        tokens: Seq::empty(),
        origins: Seq::empty(),
        stopped: false,
    }
}

/// The encoding after a stretch of source that touches the window.
pub open spec fn after_source(enc: Encoding, start: int, end: int, ctx: Context) -> Encoding {
    match current_type(enc.stack, ctx.indices) {
        Some(token_type) => if start <= end {
            let from = trim_start(text_bytes(ctx.text), start, end);
            match token_at(ctx.text, from, end, token_type, enc.previous) {
                Some(token) => Encoding {
                    previous: place_of(ctx.text, from).unwrap(),
                    tokens: enc.tokens.push(token),
                    origins: enc.origins.push(Origin { start, end, from, token_type }),
                    ..enc
                },
                None => enc,
            }
        } else {
            enc
        },
        None => enc,
    }
}

/// The encoding after one more event.
pub open spec fn after_event(enc: Encoding, event: HighlightEvent, ctx: Context) -> Encoding {
    if enc.stopped {
        enc
    } else {
        match event {
            HighlightEvent::Start(highlight) => Encoding { stack: enc.stack.push(highlight), ..enc },
            HighlightEvent::End => if enc.stack.len() > 0 {
                Encoding { stack: enc.stack.drop_last(), ..enc }
            } else {
                enc
            },
            HighlightEvent::Failed => enc,
            HighlightEvent::Source { start, end } => if before_window(
                ctx.window,
                start as int,
                end as int,
            ) {
                enc
            } else if behind_window(ctx.window, start as int, end as int) {
                Encoding { stopped: true, ..enc }
            } else {
                after_source(enc, start as int, end as int, ctx)
            },
        }
    }
}

/// The encoding after all of `events`, taken in order.
pub open spec fn encoding(events: Seq<HighlightEvent>, ctx: Context) -> Encoding
    decreases events.len(),
{
    if events.len() == 0 {
        start_of_encoding()
    } else {
        after_event(encoding(events.drop_last(), ctx), events.last(), ctx)
    }
}

/// The byte offset at which a line starts, and the end of the text for a
/// line behind the last.
pub open spec fn line_start(text: Seq<char>, line: int) -> int {
    if line <= line_count(text) {
        byte_of_line(text, line)
    } else {
        text_bytes(text).len() as int
    }
}

/// The byte offset behind the last byte of a line: where the next line
/// starts, and the end of the text for the last line and behind. No line has
/// a greater number than `u32::MAX`, so such a line reaches to the end of the
/// text.
pub open spec fn line_end(text: Seq<char>, line: int) -> int {
    if line < u32::MAX {
        line_start(text, line + 1)
    } else {
        text_bytes(text).len() as int
    }
}

/// The bytes of the lines of a range, from its first line to its last,
/// both in full: from where the first line starts up to where the last ends.
pub open spec fn window_of(text: Seq<char>, range: Option<protocol::Range>) -> Option<
    (int, int),
> {
    match range {
        Some(r) => Some((line_start(text, r.start.line as int), line_end(text, r.end.line as int))),
        None => None,
    }
}

fn is_space_byte(b: u8) -> (space: bool)
    ensures
        space == is_space(b),
{
    (9 <= b && b <= 13) || b == 32 || b == 0x85 || b == 0xA0
}

/// Moves the start of a stretch behind its leading white space.
fn skip_space(text: &Rope, start: usize, end: usize) -> (from: usize)
    requires
        start <= end,
    ensures
        from == trim_start(text_bytes(rope_text(*text)), start as int, end as int),
        start <= from <= end,
{
    let len = text.len_bytes();
    let mut from = start;
    while from < end && from < len && is_space_byte(text.byte(from))
        invariant
            start <= from <= end,
            len == text_bytes(rope_text(*text)).len(),
            trim_start(text_bytes(rope_text(*text)), start as int, end as int) == trim_start(
                text_bytes(rope_text(*text)),
                from as int,
                end as int,
            ),
        decreases end - from,
    {
        from = from + 1;
    }
    from
}

/// The line and column of a byte offset into the text.
fn place(text: &Rope, byte: usize) -> (found: Option<(u32, u32)>)
    ensures
        found == place_of(rope_text(*text), byte as int),
{
    let line = match text.try_byte_to_line(byte) {
        Ok(line) => #[verifier::truncate] (line as u32),
        Err(_) => {
            return None;
        },
    };
    let first = match text.try_line_to_char(line as usize) {
        Ok(first) => first,
        Err(_) => {
            return None;
        },
    };
    let here = match text.try_byte_to_char(byte) {
        Ok(here) => here,
        Err(_) => {
            return None;
        },
    };
    let first_unit = match text.try_char_to_utf16_cu(first) {
        Ok(unit) => #[verifier::truncate] (unit as u32),
        Err(_) => {
            return None;
        },
    };
    let here_unit = match text.try_char_to_utf16_cu(here) {
        Ok(unit) => #[verifier::truncate] (unit as u32),
        Err(_) => {
            return None;
        },
    };
    if first_unit <= here_unit {
        Some((line, here_unit - first_unit))
    } else {
        None
    }
}

/// Generates a specific semantic token within the guidelines of the LSP.
///
/// The token covers the bytes from `start` to `end` of `code`. Its place is
/// written as a difference to `pre_line` and `pre_start`, which are then set
/// to the place of this token. Where no token can be made, both are left as
/// they are.
pub fn make_semantic_token(
    code: &Rope,
    start: usize,
    end: usize,
    token_type: u32,
    pre_line: &mut u32,
    pre_start: &mut u32,
) -> (token: Option<SemanticToken>)
    requires
        start <= end,
    ensures
        token == token_at(
            rope_text(*code),
            start as int,
            end as int,
            token_type,
            (*old(pre_line), *old(pre_start)),
        ),
        token is Some ==> place_of(rope_text(*code), start as int) == Some(
            (*final(pre_line), *final(pre_start)),
        ),
        token is None ==> *final(pre_line) == *old(pre_line) && *final(pre_start) == *old(pre_start),
{
    let (line, column) = match place(code, start) {
        Some(found) => found,
        None => {
            return None;
        },
    };
    if line < *pre_line || (line == *pre_line && column < *pre_start) {
        return None;
    }
    let delta_line = line - *pre_line;
    let delta_start = if delta_line == 0 {
        column - *pre_start
    } else {
        column
    };
    *pre_line = line;
    *pre_start = column;
    Some(
        SemanticToken {
            delta_line,
            delta_start,
            length: #[verifier::truncate] ((end - start) as u32),
            token_type,
            token_modifiers_bitset: 0,
        },
    )
}

/// Once an encoding has stopped, further events change nothing.
pub proof fn lemma_stopped_stays(events: Seq<HighlightEvent>, n: int, ctx: Context)
    requires
        0 <= n <= events.len(),
        encoding(events.take(n), ctx).stopped,
    ensures
        encoding(events, ctx) == encoding(events.take(n), ctx),
    decreases events.len() - n,
{
    if n < events.len() {
        assert(events.take(n + 1).drop_last() =~= events.take(n));
        lemma_stopped_stays(events, n + 1, ctx);
    } else {
        assert(events.take(n) =~= events);
    }
}

/// Encodes a stream of highlight events as semantic tokens.
///
/// `window` restricts the tokens to the stretches of source that have a
/// byte in it: at or behind its first component and before its second.
pub fn encode(
    events: &Vec<HighlightEvent>,
    text: &Rope,
    legend: &Legend,
    window: Option<(usize, usize)>,
) -> (tokens: Vec<SemanticToken>)
    requires
        legend.wf(),
    ensures
        tokens@ == encoding(
            events@,
            Context {
                text: rope_text(*text),
                indices: legend.indices(),
                window: match window {
                    Some(w) => Some((w.0 as int, w.1 as int)),
                    None => None,
                },
            },
        ).tokens,
{
    let ghost ctx = Context {
        text: rope_text(*text),
        indices: legend.indices(),
        window: match window {
            Some(w) => Some((w.0 as int, w.1 as int)),
            None => None,
        },
    };
    let mut tokens: Vec<SemanticToken> = Vec::new();
    let mut types: Vec<usize> = Vec::new();
    let mut pre_line: u32 = 0;
    let mut pre_start: u32 = 0;
    let mut stopped = false;
    let mut i: usize = 0;
    while i < events.len() && !stopped
        invariant
            i <= events.len(),
            legend.wf(),
            ctx.text == rope_text(*text),
            ctx.indices == legend.indices(),
            ctx.window == match window {
                Some(w) => Some((w.0 as int, w.1 as int)),
                None => None::<(int, int)>,
            },
            encoding(events@.take(i as int), ctx).stack == types@,
            encoding(events@.take(i as int), ctx).previous == (pre_line, pre_start),
            encoding(events@.take(i as int), ctx).tokens == tokens@,
            encoding(events@.take(i as int), ctx).stopped == stopped,
        decreases events.len() - i,
    {
        proof {
            assert(events@.take(i + 1).drop_last() =~= events@.take(i as int));
        }
        match events[i] {
            HighlightEvent::Start(highlight) => {
                types.push(highlight);
            },
            HighlightEvent::End => {
                types.pop();
            },
            HighlightEvent::Failed => {},
            HighlightEvent::Source { start, end } => {
                let before = match window {
                    Some(w) => end <= w.0,
                    None => false,
                };
                let behind = match window {
                    Some(w) => w.1 <= start,
                    None => false,
                };
                if before {
                } else if behind {
                    stopped = true;
                } else if start <= end && types.len() > 0 {
                    match legend.type_index(types[types.len() - 1]) {
                        Some(token_type) => {
                            let from = skip_space(text, start, end);
                            match make_semantic_token(
                                text,
                                from,
                                end,
                                token_type,
                                &mut pre_line,
                                &mut pre_start,
                            ) {
                                Some(token) => {
                                    tokens.push(token);
                                },
                                None => {},
                            }
                        },
                        None => {},
                    }
                }
            },
        }
        i = i + 1;
    }
    proof {
        if stopped {
            lemma_stopped_stays(events@, i as int, ctx);
        } else {
            assert(events@.take(i as int) =~= events@);
        }
    }
    tokens
}

/// The byte offset at which a line of the text starts; the end of the text
/// for a line behind the last.
fn line_start_byte(text: &Rope, line: u32) -> (byte: usize)
    ensures
        byte == line_start(rope_text(*text), line as int),
{
    match text.try_line_to_byte(line as usize) {
        Ok(byte) => byte,
        Err(_) => text.len_bytes(),
    }
}

/// The byte offset behind the last byte of a line of the text.
fn line_end_byte(text: &Rope, line: u32) -> (byte: usize)
    ensures
        byte == line_end(rope_text(*text), line as int),
{
    if line < u32::MAX {
        line_start_byte(text, line + 1)
    } else {
        text.len_bytes()
    }
}

/// The tokens that a session gives for a text: those of the events that
/// its highlighter makes of the text.
pub open spec fn tokens_of(session: Session, text: Seq<char>, range: Option<protocol::Range>) -> Seq<
    SemanticToken,
> {
    encoding(
        session.events(text_bytes(text)),
        Context { text, indices: session.legend.indices(), window: window_of(text, range) },
    ).tokens
}

/// Tests whether the text places its byte offsets in order: every offset
/// has a place, and none stands before the place of an earlier offset.
///
/// Every offset of the text is looked up once.
pub fn places_in_order(text: &Rope) -> (ok: bool)
    ensures
        ok == places_ordered(rope_text(*text)),
{
    let ghost t = rope_text(*text);
    let len = text.len_bytes();
    let mut previous = match place(text, 0) {
        Some(found) => found,
        None => {
            assert(place_of(t, 0) is None);
            return false;
        },
    };
    let mut byte: usize = 0;
    while byte < len
        invariant
            byte <= len,
            len == text_bytes(t).len(),
            t == rope_text(*text),
            place_of(t, byte as int) == Some(previous),
            forall|a: int, b: int|
                0 <= a <= b <= byte ==> place_of(t, a) is Some && place_of(t, b) is Some && place_le(
                    (#[trigger] place_of(t, a)).unwrap(),
                    (#[trigger] place_of(t, b)).unwrap(),
                ),
        decreases len - byte,
    {
        let next = match place(text, byte + 1) {
            Some(found) => found,
            None => {
                assert(place_of(t, byte + 1) is None);
                return false;
            },
        };
        if next.0 < previous.0 || (next.0 == previous.0 && next.1 < previous.1) {
            assert(!place_le(place_of(t, byte as int).unwrap(), place_of(t, byte + 1).unwrap()));
            return false;
        }
        proof {
            // What stands at or before the place of this offset stands at or
            // before the place of the next.
            assert forall|a: int, b: int| 0 <= a <= b <= byte + 1 implies place_of(t, a) is Some
                && place_of(t, b) is Some && place_le(
                (#[trigger] place_of(t, a)).unwrap(),
                (#[trigger] place_of(t, b)).unwrap(),
            ) by {
                if b == byte + 1 && a <= byte {
                    assert(place_le(place_of(t, a).unwrap(), place_of(t, byte as int).unwrap()));
                }
            }
        }
        previous = next;
        byte = byte + 1;
    }
    true
}

/// The highlight events of a document, or `None` where the highlighter
/// gives none. The events come in the order of the document. The document
/// keeps its text and its tree.
pub fn highlight_document(session: &Session, doc: &mut Document) -> (events: Option<
    Vec<HighlightEvent>,
>)
    ensures
        events matches Some(list) ==> list@ == session.events(text_bytes(old(doc).text())),
        events matches Some(list) ==> in_document_order(list@),
        final(doc).text == old(doc).text,
        final(doc).tree == old(doc).tree,
        final(doc).url == old(doc).url,
{
    let code = rope_to_string(&doc.text);
    highlight(&mut doc.highlighter, &session.highlights, code.as_str().as_bytes())
}

/// Generate the semantic tokens of a document for syntax highlighting.
///
/// With a range, the tokens are those whose stretch of source has a byte in
/// the lines of the range, from its first line to its last. Where the
/// highlighter gives no events, there are no tokens. The document keeps its
/// text and its tree.
///
/// Where tokens come out for a range and the text places its byte offsets
/// in order, they are a part of the tokens of the whole document: those
/// whose stretch of source has a byte in the lines of the range, in the same
/// order and each at the place it has in the whole document.
pub fn semantic_tokens(session: &Session, doc: &mut Document, range: Option<protocol::Range>) -> (tokens:
    Vec<SemanticToken>)
    requires
        session.wf(),
    ensures
        tokens@ == tokens_of(*session, old(doc).text(), range) || tokens@.len() == 0,
        tokens@.len() > 0 && places_ordered(old(doc).text()) ==> range_selects(
            session.events(text_bytes(old(doc).text())),
            old(doc).text(),
            session.legend.indices(),
            range,
        ),
        final(doc).text == old(doc).text,
        final(doc).tree == old(doc).tree,
        final(doc).url == old(doc).url,
{
    let window = match range {
        Some(r) => Some(
            (line_start_byte(&doc.text, r.start.line), line_end_byte(&doc.text, r.end.line)),
        ),
        None => None,
    };
    match highlight_document(session, doc) {
        Some(events) => {
            proof {
                if places_ordered(doc.text()) {
                    lemma_range_selects(events@, doc.text(), session.legend.indices(), range);
                }
            }
            encode(&events, &doc.text, &session.legend, window)
        },
        None => Vec::new(),
    }
}

} // verus!
