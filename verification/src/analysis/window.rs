//! Tokens for a part of a document.
//!
//! An editor may ask for the tokens of some lines only. The encoding then
//! leaves out the stretches of source that end before those lines and stops
//! at the first that starts behind them. This module proves that what comes
//! out are the tokens of the whole document that touch those lines, each at
//! the place it has in the whole document.

use vstd::prelude::*;
use crate::analysis::positions::{
    absolute,
    lemma_encoding_matches_origins,
    lemma_trim_start_bounds,
    matches_origin,
    matches_origins,
};
use crate::analysis::semantic_token::{
    after_source,
    current_type,
    encoding,
    in_window,
    place_le,
    place_of,
    places_ordered,
    window_of,
    trim_start,
    Context,
    Encoding,
    Origin,
};
use crate::language::highlight::{in_document_order, reach, HighlightEvent};
use crate::protocol;
use crate::utils::rope::text_bytes;

verus! {

/// A token with its place in the document and the stretch of source it was
/// made of: what a token is, apart from how its place is written down.
pub struct Placed {
    pub line: int,
    pub column: int,
    pub length: u32,
    pub token_type: u32,
    /// Where the stretch of source starts, in bytes.
    pub start: int,
    /// Where the stretch of source ends, in bytes.
    pub end: int,
}

/// The tokens of an encoding, each with its place and its stretch.
pub open spec fn placed(enc: Encoding) -> Seq<Placed> {
    Seq::new(
        enc.tokens.len(),
        |k: int|
            Placed {
                line: absolute(enc.tokens)[k].0,
                column: absolute(enc.tokens)[k].1,
                length: enc.tokens[k].length,
                token_type: enc.tokens[k].token_type,
                start: enc.origins[k].start,
                end: enc.origins[k].end,
            },
    )
}

/// Those of some placed tokens whose stretch touches the window, in order.
pub open spec fn touching(tokens: Seq<Placed>, window: (int, int)) -> Seq<Placed>
    decreases tokens.len(),
{
    if tokens.len() == 0 {
        Seq::empty()
    } else if in_window(Some(window), tokens.last().start, tokens.last().end) {
        touching(tokens.drop_last(), window).push(tokens.last())
    } else {
        touching(tokens.drop_last(), window)
    }
}

/// The placed token that an origin gives in a text.
pub open spec fn placed_of(origin: Origin, text: Seq<char>) -> Placed {
    Placed {
        line: place_of(text, origin.from).unwrap().0 as int,
        column: place_of(text, origin.from).unwrap().1 as int,
        length: (origin.end - origin.from) as u32,
        token_type: origin.token_type,
        start: origin.start,
        end: origin.end,
    }
}

/// The placed tokens that some origins give in a text.
pub open spec fn placed_all(origins: Seq<Origin>, text: Seq<char>) -> Seq<Placed> {
    Seq::new(origins.len(), |k: int| placed_of(origins[k], text))
}

/// Those of some origins whose stretch touches the window, in order.
pub open spec fn touching_origins(origins: Seq<Origin>, window: (int, int)) -> Seq<Origin>
    decreases origins.len(),
{
    if origins.len() == 0 {
        Seq::empty()
    } else if in_window(Some(window), origins.last().start, origins.last().end) {
        touching_origins(origins.drop_last(), window).push(origins.last())
    } else {
        touching_origins(origins.drop_last(), window)
    }
}

/// The origin that a stretch of source gives under the open highlights,
/// where the order of the tokens does not stand in the way.
pub open spec fn origin_of(stack: Seq<usize>, start: int, end: int, ctx: Context) -> Option<
    Origin,
> {
    match current_type(stack, ctx.indices) {
        Some(token_type) => {
            let from = trim_start(text_bytes(ctx.text), start, end);
            if from <= text_bytes(ctx.text).len() {
                Some(Origin { start, end, from, token_type })
            } else {
                None
            }
        },
        None => None,
    }
}

/// The tokens of an encoding are placed as their origins say.
proof fn lemma_placed_by_origins(enc: Encoding, text: Seq<char>)
    requires
        matches_origins(enc, text),
    ensures
        placed(enc) == placed_all(enc.origins, text),
{
    assert forall|k: int| 0 <= k < enc.tokens.len() implies placed(enc)[k] == placed_all(
        enc.origins,
        text,
    )[k] by {
        assert(matches_origin(enc.tokens[k], absolute(enc.tokens)[k], enc.origins[k], text));
    }
    assert(placed(enc) =~= placed_all(enc.origins, text));
}

/// Picking what touches the window and placing it can be done in either
/// order.
proof fn lemma_touching_placed(origins: Seq<Origin>, text: Seq<char>, window: (int, int))
    ensures
        touching(placed_all(origins, text), window) == placed_all(
            touching_origins(origins, window),
            text,
        ),
    decreases origins.len(),
{
    if origins.len() > 0 {
        let front = origins.drop_last();
        lemma_touching_placed(front, text, window);
        assert(placed_all(origins, text).drop_last() =~= placed_all(front, text));
        if in_window(Some(window), origins.last().start, origins.last().end) {
            assert(placed_all(touching_origins(front, window).push(origins.last()), text)
                =~= placed_all(touching_origins(front, window), text).push(
                placed_of(origins.last(), text),
            ));
        }
    }
}

/// In a text that places offsets in order, a stretch that starts at or
/// behind the last token gives a token whenever it has a token type.
proof fn lemma_source_in_order(enc: Encoding, start: int, end: int, ctx: Context)
    requires
        matches_origins(enc, ctx.text),
        places_ordered(ctx.text),
        0 <= start <= end,
        enc.origins.len() > 0 ==> enc.origins.last().from <= start,
    ensures
        after_source(enc, start, end, ctx).stack == enc.stack,
        after_source(enc, start, end, ctx).stopped == enc.stopped,
        after_source(enc, start, end, ctx).origins == match origin_of(enc.stack, start, end, ctx) {
            Some(origin) => enc.origins.push(origin),
            None => enc.origins,
        },
{
    match current_type(enc.stack, ctx.indices) {
        Some(token_type) => {
            let from = trim_start(text_bytes(ctx.text), start, end);
            lemma_trim_start_bounds(text_bytes(ctx.text), start, end);
            if from <= text_bytes(ctx.text).len() && enc.origins.len() > 0 {
                // The last token stands at or before this one, so this one
                // does not put the stream out of order.
                let last = enc.origins.len() - 1;
                assert(matches_origin(
                    enc.tokens[last],
                    absolute(enc.tokens)[last],
                    enc.origins[last],
                    ctx.text,
                ));
                assert(place_le(
                    place_of(ctx.text, enc.origins[last].from).unwrap(),
                    place_of(ctx.text, from).unwrap(),
                ));
            }
        },
        None => {},
    }
}

/// What holds between the encoding of the whole document and the encoding
/// for a window, after the same events.
spec fn window_invariant(events: Seq<HighlightEvent>, ctx: Context, window: (int, int)) -> bool {
    let whole = encoding(events, Context { window: None, ..ctx });
    let part = encoding(events, Context { window: Some(window), ..ctx });
    &&& 0 <= reach(events)
    &&& part.origins == touching_origins(whole.origins, window)
    &&& !whole.stopped
    &&& !part.stopped ==> part.stack == whole.stack
    &&& part.stopped ==> window.1 <= reach(events)
    &&& whole.origins.len() > 0 ==> whole.origins.last().from <= reach(events)
    &&& part.origins.len() > 0 ==> part.origins.last().from <= reach(events)
}

proof fn lemma_window_invariant(events: Seq<HighlightEvent>, ctx: Context, window: (int, int))
    requires
        in_document_order(events),
        places_ordered(ctx.text),
    ensures
        window_invariant(events, ctx, window),
    decreases events.len(),
{
    let whole_ctx = Context { window: None, ..ctx };
    let part_ctx = Context { window: Some(window), ..ctx };
    if events.len() > 0 {
        let front = events.drop_last();
        lemma_window_invariant(front, ctx, window);
        lemma_encoding_matches_origins(front, whole_ctx);
        lemma_encoding_matches_origins(front, part_ctx);
        let whole = encoding(front, whole_ctx);
        let part = encoding(front, part_ctx);
        match events.last() {
            HighlightEvent::Source { start, end } => {
                let (s, e) = (start as int, end as int);
                lemma_source_in_order(whole, s, e, whole_ctx);
                lemma_trim_start_bounds(text_bytes(ctx.text), s, e);
                if !part.stopped && in_window(Some(window), s, e) {
                    lemma_source_in_order(part, s, e, part_ctx);
                    assert(origin_of(part.stack, s, e, part_ctx) == origin_of(
                        whole.stack,
                        s,
                        e,
                        whole_ctx,
                    ));
                }
                match origin_of(whole.stack, s, e, whole_ctx) {
                    Some(origin) => {
                        assert(whole.origins.push(origin).drop_last() =~= whole.origins);
                    },
                    None => {},
                }
            },
            _ => {},
        }
    }
}

/// Whether the tokens for a range are those of the whole document whose
/// stretch of source has a byte in the lines of the range, in the same
/// order and each at the place it has in the whole document.
pub open spec fn range_selects(
    events: Seq<HighlightEvent>,
    text: Seq<char>,
    indices: Seq<u32>,
    range: Option<protocol::Range>,
) -> bool {
    match window_of(text, range) {
        Some(window) => placed(encoding(events, Context { text, indices, window: Some(window) }))
            == touching(placed(encoding(events, Context { text, indices, window: None })), window),
        None => true,
    }
}

/// Asking for a window gives a part of what asking for the whole document
/// gives: the tokens whose stretch of source touches the window, no others,
/// in the same order and each at the place it has in the whole document.
///
/// This holds where the stretches of source come in document order, as a
/// highlighter yields them, and the text places later offsets no earlier.
pub proof fn lemma_window_selects(events: Seq<HighlightEvent>, ctx: Context, window: (int, int))
    requires
        in_document_order(events),
        places_ordered(ctx.text),
    ensures
        placed(encoding(events, Context { window: Some(window), ..ctx })) == touching(
            placed(encoding(events, Context { window: None, ..ctx })),
            window,
        ),
{
    let whole_ctx = Context { window: None, ..ctx };
    let part_ctx = Context { window: Some(window), ..ctx };
    let whole = encoding(events, whole_ctx);
    let part = encoding(events, part_ctx);
    lemma_window_invariant(events, ctx, window);
    lemma_encoding_matches_origins(events, whole_ctx);
    lemma_encoding_matches_origins(events, part_ctx);
    lemma_placed_by_origins(whole, ctx.text);
    lemma_placed_by_origins(part, ctx.text);
    lemma_touching_placed(whole.origins, ctx.text, window);
}

/// The same for a range of lines: where the events come in document order
/// and the text places later offsets no earlier, the tokens for the range
/// are a part of those for the whole document.
pub proof fn lemma_range_selects(
    events: Seq<HighlightEvent>,
    text: Seq<char>,
    indices: Seq<u32>,
    range: Option<protocol::Range>,
)
    requires
        in_document_order(events),
        places_ordered(text),
    ensures
        range_selects(events, text, indices, range),
{
    match window_of(text, range) {
        Some(window) => {
            lemma_window_selects(events, Context { text, indices, window: None }, window);
        },
        None => {},
    }
}

} // verus!
