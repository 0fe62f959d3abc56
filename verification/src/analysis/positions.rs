//! The absolute places of delta-encoded tokens.
//!
//! A reader of a token stream finds where each token stands by adding up
//! the differences from the start. This module says what that sum is, and
//! proves that it gives back the places that the tokens were made from.

use vstd::prelude::*;
use crate::analysis::semantic_token::{
    after_source,
    encoding,
    is_space,
    place_of,
    trim_start,
    Context,
    Encoding,
    Origin,
};
use crate::language::highlight::HighlightEvent;
use crate::protocol::SemanticToken;
use crate::utils::rope::text_bytes;

verus! {

/// The place of a token, given the place of the token before it.
pub open spec fn advance(previous: (int, int), token: SemanticToken) -> (int, int) {
    if token.delta_line == 0 {
        (previous.0, previous.1 + token.delta_start)
    } else {
        (previous.0 + token.delta_line, token.delta_start as int)
    }
}

/// The line and column of each token of a stream, added up from line 0,
/// column 0.
pub open spec fn absolute(tokens: Seq<SemanticToken>) -> Seq<(int, int)>
    decreases tokens.len(),
{
    if tokens.len() == 0 {
        Seq::empty()
    } else {
        let before = absolute(tokens.drop_last());
        before.push(advance(last_place(before), tokens.last()))
    }
}

/// The last of some places, or line 0, column 0 where there is none.
pub open spec fn last_place(places: Seq<(int, int)>) -> (int, int) {
    if places.len() == 0 {
        (0, 0)
    } else {
        places.last()
    }
}

/// Whether place `a` does not lie behind place `b`, reading line first.
pub open spec fn le(a: (int, int), b: (int, int)) -> bool {
    a.0 < b.0 || (a.0 == b.0 && a.1 <= b.1)
}

/// A stream has as many places as tokens.
pub proof fn lemma_absolute_len(tokens: Seq<SemanticToken>)
    ensures
        absolute(tokens).len() == tokens.len(),
    decreases tokens.len(),
{
    if tokens.len() > 0 {
        lemma_absolute_len(tokens.drop_last());
    }
}

/// The places of a shorter stream are the first places of a longer one.
pub proof fn lemma_absolute_push(tokens: Seq<SemanticToken>, token: SemanticToken)
    ensures
        absolute(tokens.push(token)) == absolute(tokens).push(
            advance(last_place(absolute(tokens)), token),
        ),
{
    assert(tokens.push(token).drop_last() =~= tokens);
}

/// Whatever the tokens of a stream are, their places never go back: each
/// token stands at or behind every token before it.
pub proof fn lemma_absolute_ordered(tokens: Seq<SemanticToken>, i: int, j: int)
    requires
        0 <= i <= j < tokens.len(),
    ensures
        absolute(tokens).len() == tokens.len(),
        le((0, 0), absolute(tokens)[i]),
        le(absolute(tokens)[i], absolute(tokens)[j]),
    decreases tokens.len(),
{
    lemma_absolute_len(tokens);
    let front = tokens.drop_last();
    let before = absolute(front);
    lemma_absolute_len(front);
    if front.len() > 0 {
        lemma_absolute_ordered(front, 0, front.len() - 1);
    }
    if j < tokens.len() - 1 {
        lemma_absolute_ordered(front, i, j);
    } else if i < j {
        lemma_absolute_ordered(front, i, j - 1);
    }
}

/// What holds between the tokens of an encoding and what they were made of.
pub open spec fn matches_origins(enc: Encoding, text: Seq<char>) -> bool {
    &&& enc.tokens.len() == enc.origins.len()
    &&& absolute(enc.tokens).len() == enc.tokens.len()
    &&& forall|k: int|
        0 <= k < enc.tokens.len() ==> matches_origin(
            #[trigger] enc.tokens[k],
            absolute(enc.tokens)[k],
            enc.origins[k],
            text,
        )
    &&& last_place(absolute(enc.tokens)) == (enc.previous.0 as int, enc.previous.1 as int)
}

/// Whether a token at an absolute place is the token of its origin: it
/// stands where the text places the start of the origin, is as long as the
/// origin from there to its end, and has the origin's token type.
pub open spec fn matches_origin(
    token: SemanticToken,
    at: (int, int),
    origin: Origin,
    text: Seq<char>,
) -> bool {
    &&& origin.start <= origin.from <= origin.end
    &&& origin.from == trim_start(text_bytes(text), origin.start, origin.end)
    &&& place_of(text, origin.from) == Some((at.0 as u32, at.1 as u32))
    &&& 0 <= at.0 <= u32::MAX
    &&& 0 <= at.1 <= u32::MAX
    &&& token.length == (origin.end - origin.from) as u32
    &&& token.token_type == origin.token_type
    &&& token.token_modifiers_bitset == 0
}

/// Skipping white space stays inside the stretch.
pub proof fn lemma_trim_start_bounds(bytes: Seq<u8>, start: int, end: int)
    requires
        start <= end,
    ensures
        start <= trim_start(bytes, start, end) <= end,
    decreases end - start,
{
    if start < end && 0 <= start < bytes.len() && is_space(bytes[start]) {
        lemma_trim_start_bounds(bytes, start + 1, end);
    }
}

/// One more stretch of source keeps tokens and origins matched.
proof fn lemma_after_source_matches(enc: Encoding, start: int, end: int, ctx: Context)
    requires
        matches_origins(enc, ctx.text),
    ensures
        matches_origins(after_source(enc, start, end, ctx), ctx.text),
{
    let next = after_source(enc, start, end, ctx);
    if next != enc {
        // A token was added: it stands where the text places its start.
        lemma_trim_start_bounds(text_bytes(ctx.text), start, end);
        lemma_absolute_push(enc.tokens, next.tokens.last());
        assert forall|k: int| 0 <= k < next.tokens.len() implies matches_origin(
            #[trigger] next.tokens[k],
            absolute(next.tokens)[k],
            next.origins[k],
            ctx.text,
        ) by {
            if k < enc.tokens.len() {
                assert(matches_origin(
                    enc.tokens[k],
                    absolute(enc.tokens)[k],
                    enc.origins[k],
                    ctx.text,
                ));
            }
        }
    }
}

/// Round trip: the places added up from the tokens of an encoding are the
/// places that the text gives the stretches they were made of, token by
/// token, and each token has the length and the type of its stretch.
pub proof fn lemma_encoding_matches_origins(events: Seq<HighlightEvent>, ctx: Context)
    ensures
        matches_origins(encoding(events, ctx), ctx.text),
    decreases events.len(),
{
    if events.len() > 0 {
        lemma_encoding_matches_origins(events.drop_last(), ctx);
        let enc = encoding(events.drop_last(), ctx);
        if !enc.stopped {
            match events.last() {
                HighlightEvent::Source { start, end } => {
                    lemma_after_source_matches(enc, start as int, end as int, ctx);
                },
                _ => {},
            }
        }
    }
}

/// Round trip, read off the tokens: adding up the differences of an
/// encoding gives places that never go back, and each is the place that the
/// text gives the start of the token.
pub proof fn lemma_round_trip(events: Seq<HighlightEvent>, ctx: Context, i: int, j: int)
    requires
        0 <= i <= j < encoding(events, ctx).tokens.len(),
    ensures
        le(absolute(encoding(events, ctx).tokens)[i], absolute(encoding(events, ctx).tokens)[j]),
        place_of(ctx.text, encoding(events, ctx).origins[i].from) == Some(
            (
                absolute(encoding(events, ctx).tokens)[i].0 as u32,
                absolute(encoding(events, ctx).tokens)[i].1 as u32,
            ),
        ),
{
    let enc = encoding(events, ctx);
    lemma_absolute_ordered(enc.tokens, i, j);
    lemma_encoding_matches_origins(events, ctx);
    assert(matches_origin(enc.tokens[i], absolute(enc.tokens)[i], enc.origins[i], ctx.text));
}

} // verus!
