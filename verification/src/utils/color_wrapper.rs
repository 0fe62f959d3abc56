//! Removal of terminal styling from compiler messages.
//!
//! The compiler decorates its messages with ANSI escape sequences. Editors do
//! not render them, so they are taken out before a message is shown.
//!
//! An escape sequence is the character ESC followed by either
//! - `[`, any number of parameter characters (`0`-`9`, `;`, `?`) and one
//!   final letter out of `A`-`H`, `J`, `K`, `S`, `T`, `f`, `h`, `i`, `l`, `m`,
//!   `n`, `s`, `u`; or
//! - `(` and `B`.
//!
//! The text is read from left to right. Where a sequence starts, it is
//! skipped as a whole and reading goes on behind it; any other character is
//! kept. Taking a sequence out can bring the two halves of another one
//! together, so the text is read again until no sequence is left in it.

use vstd::prelude::*;
use crate::utils::text::characters;

verus! {

/// The character that opens an escape sequence.
pub open spec fn is_escape_char(c: char) -> bool {
    c == '\u{1b}'
}

/// Characters allowed between `ESC [` and the final letter.
pub open spec fn is_parameter(c: char) -> bool {
    ('0' <= c && c <= '9') || c == ';' || c == '?'
}

/// Letters that end a sequence opened by `ESC [`.
pub open spec fn is_final(c: char) -> bool {
    ('A' <= c && c <= 'H') || c == 'J' || c == 'K' || c == 'S' || c == 'T' || c == 'f' || c == 'h'
        || c == 'i' || c == 'l' || c == 'm' || c == 'n' || c == 's' || c == 'u'
}

/// How many parameter characters stand in `s` from index `i` on, without a gap.
pub open spec fn parameter_run(s: Seq<char>, i: int) -> int
    decreases s.len() - i,
{
    if 0 <= i < s.len() && is_parameter(s[i]) {
        1 + parameter_run(s, i + 1)
    } else {
        0
    }
}

/// The length of the escape sequence that starts at index `i` of `s`, or 0
/// where none starts there.
pub open spec fn escape_len(s: Seq<char>, i: int) -> int {
    if 0 <= i && i + 1 < s.len() && is_escape_char(s[i]) {
        if s[i + 1] == '[' {
            let k = parameter_run(s, i + 2);
            if i + 2 + k < s.len() && is_final(s[i + 2 + k]) {
                k + 3
            } else {
                0
            }
        } else if s[i + 1] == '(' && i + 2 < s.len() && s[i + 2] == 'B' {
            3
        } else {
            0
        }
    } else {
        0
    }
}

/// What is left of `s` from index `i` on, once the escape sequences met on
/// the way are skipped.
pub open spec fn strip_from(s: Seq<char>, i: int) -> Seq<char>
    decreases s.len() - i,
{
    if i < 0 || i >= s.len() {
        Seq::empty()
    } else if escape_len(s, i) > 0 {
        strip_from(s, i + escape_len(s, i))
    } else {
        seq![s[i]] + strip_from(s, i + 1)
    }
}

/// What one reading leaves of the text `s`: the sequences met from left to
/// right are skipped.
pub open spec fn strip(s: Seq<char>) -> Seq<char> {
    strip_from(s, 0)
}

/// Whether an escape sequence starts anywhere in `s`.
pub open spec fn has_escape(s: Seq<char>) -> bool {
    exists|i: int| 0 <= i < s.len() && escape_len(s, i) > 0
}

/// The text `s` without escape sequences: read again and again until no
/// sequence starts in it.
pub open spec fn strip_all(s: Seq<char>) -> Seq<char>
    decreases s.len(),
    via strip_all_ends
{
    if has_escape(s) {
        strip_all(strip(s))
    } else {
        s
    }
}

/// Each reading of a text that holds a sequence makes it shorter.
#[via_fn]
proof fn strip_all_ends(s: Seq<char>) {
    lemma_strip_from_len(s, 0);
}

/// Whether every ESC character of `s` opens an escape sequence, as in text
/// that a well-behaved program has decorated.
pub open spec fn well_decorated(s: Seq<char>) -> bool {
    forall|i: int| 0 <= i < s.len() && is_escape_char(s[i]) ==> escape_len(s, i) > 0
}

pub proof fn lemma_parameter_run_bounds(s: Seq<char>, i: int)
    requires
        0 <= i,
    ensures
        0 <= parameter_run(s, i),
        i + parameter_run(s, i) <= s.len() || parameter_run(s, i) == 0,
        forall|j: int| i <= j < i + parameter_run(s, i) ==> is_parameter(#[trigger] s[j]),
        i + parameter_run(s, i) < s.len() ==> !is_parameter(s[i + parameter_run(s, i)]),
    decreases s.len() - i,
{
    if i < s.len() && is_parameter(s[i]) {
        lemma_parameter_run_bounds(s, i + 1);
    }
}

pub proof fn lemma_escape_len_bounds(s: Seq<char>, i: int)
    ensures
        escape_len(s, i) == 0 || escape_len(s, i) >= 3,
        escape_len(s, i) > 0 ==> 0 <= i && i + escape_len(s, i) <= s.len(),
{
    if 0 <= i && i + 1 < s.len() {
        lemma_parameter_run_bounds(s, i + 2);
    }
}

/// Stripping never lengthens a text, and shortens it where an escape
/// sequence starts at or behind `i`.
pub proof fn lemma_strip_from_len(s: Seq<char>, i: int)
    requires
        0 <= i <= s.len(),
    ensures
        strip_from(s, i).len() <= s.len() - i,
        (exists|j: int| i <= j < s.len() && escape_len(s, j) > 0) ==> strip_from(s, i).len()
            < s.len() - i,
    decreases s.len() - i,
{
    if i < s.len() {
        lemma_escape_len_bounds(s, i);
        if escape_len(s, i) > 0 {
            lemma_strip_from_len(s, i + escape_len(s, i));
        } else {
            lemma_strip_from_len(s, i + 1);
            if exists|j: int| i <= j < s.len() && escape_len(s, j) > 0 {
                // No sequence starts at `i`, so the one that exists starts behind it.
                let j = choose|j: int| i <= j < s.len() && escape_len(s, j) > 0;
                assert(i + 1 <= j < s.len() && escape_len(s, j) > 0);
            }
        }
    }
}

/// Where no escape sequence starts at or behind `i`, the rest of the text
/// is kept as it is.
pub proof fn lemma_strip_from_keeps_plain(s: Seq<char>, i: int)
    requires
        0 <= i <= s.len(),
        forall|j: int| i <= j < s.len() ==> !(escape_len(s, j) > 0),
    ensures
        strip_from(s, i) == s.skip(i),
    decreases s.len() - i,
{
    if i < s.len() {
        lemma_strip_from_keeps_plain(s, i + 1);
    }
}

/// A text is left unchanged exactly when no escape sequence starts in it.
pub proof fn lemma_strip_fixed_point(s: Seq<char>)
    ensures
        strip(s) == s <==> !has_escape(s),
{
    lemma_strip_from_len(s, 0);
    if !has_escape(s) {
        lemma_strip_from_keeps_plain(s, 0);
        assert(s.skip(0) =~= s);
    }
}

/// No escape sequence starts in a stripped text.
pub proof fn lemma_strip_all_clean(s: Seq<char>)
    ensures
        !has_escape(strip_all(s)),
        strip_all(s).len() <= s.len(),
    decreases s.len(),
{
    if has_escape(s) {
        lemma_strip_from_len(s, 0);
        lemma_strip_all_clean(strip(s));
    }
}

/// Stripping is idempotent: a stripped text is left as it is.
pub proof fn lemma_strip_all_idempotent(s: Seq<char>)
    ensures
        strip_all(strip_all(s)) == strip_all(s),
{
    lemma_strip_all_clean(s);
}

/// A text in which no escape sequence starts is left as it is, and no other.
pub proof fn lemma_strip_all_fixed_point(s: Seq<char>)
    ensures
        strip_all(s) == s <==> !has_escape(s),
{
    lemma_strip_all_clean(s);
}

/// From a well-decorated text every ESC character is taken out.
pub proof fn lemma_strip_from_clears_escapes(s: Seq<char>, i: int)
    requires
        0 <= i <= s.len(),
        well_decorated(s),
    ensures
        forall|k: int| 0 <= k < strip_from(s, i).len() ==> !is_escape_char(#[trigger] strip_from(s, i)[k]),
    decreases s.len() - i,
{
    if i < s.len() {
        lemma_escape_len_bounds(s, i);
        if escape_len(s, i) > 0 {
            lemma_strip_from_clears_escapes(s, i + escape_len(s, i));
            assert(strip_from(s, i) == strip_from(s, i + escape_len(s, i)));
        } else {
            lemma_strip_from_clears_escapes(s, i + 1);
            // The character kept here is no ESC, as every ESC opens a sequence.
            assert(strip_from(s, i) == seq![s[i]] + strip_from(s, i + 1));
        }
    }
}

/// One reading is enough for well-decorated text.
pub proof fn lemma_strip_all_well_decorated(s: Seq<char>)
    requires
        well_decorated(s),
    ensures
        strip_all(s) == strip(s),
{
    lemma_strip_from_clears_escapes(s, 0);
    assert(!has_escape(strip(s)));
    lemma_strip_fixed_point(s);
    lemma_strip_all_fixed_point(strip(s));
}

/// Whether no ESC character stands in `s`.
pub open spec fn plain(s: Seq<char>) -> bool {
    forall|i: int| 0 <= i < s.len() ==> !is_escape_char(#[trigger] s[i])
}

proof fn lemma_parameter_run_shift(a: Seq<char>, b: Seq<char>, j: int)
    requires
        0 <= j,
    ensures
        parameter_run(a + b, a.len() + j) == parameter_run(b, j),
    decreases b.len() - j,
{
    if j < b.len() {
        assert((a + b)[a.len() + j] == b[j]);
        if is_parameter(b[j]) {
            lemma_parameter_run_shift(a, b, j + 1);
        }
    }
}

/// A sequence starts in the second of two texts where it starts in both
/// put together.
proof fn lemma_escape_len_shift(a: Seq<char>, b: Seq<char>, j: int)
    requires
        0 <= j,
    ensures
        escape_len(a + b, a.len() + j) == escape_len(b, j),
{
    let s = a + b;
    let n = a.len() as int;
    if j + 1 < b.len() {
        assert(s[n + j] == b[j]);
        assert(s[n + j + 1] == b[j + 1]);
        lemma_parameter_run_shift(a, b, j + 2);
        lemma_parameter_run_bounds(b, j + 2);
        let k = parameter_run(b, j + 2);
        if j + 2 + k < b.len() {
            assert(s[n + j + 2 + k] == b[j + 2 + k]);
        }
        if j + 2 < b.len() {
            assert(s[n + j + 2] == b[j + 2]);
        }
    }
}

proof fn lemma_strip_from_shift(a: Seq<char>, b: Seq<char>, j: int)
    requires
        0 <= j <= b.len(),
    ensures
        strip_from(a + b, a.len() + j) == strip_from(b, j),
    decreases b.len() - j,
{
    if j < b.len() {
        lemma_escape_len_shift(a, b, j);
        lemma_escape_len_bounds(b, j);
        if escape_len(b, j) > 0 {
            lemma_strip_from_shift(a, b, j + escape_len(b, j));
        } else {
            lemma_strip_from_shift(a, b, j + 1);
            assert((a + b)[a.len() + j] == b[j]);
        }
    }
}

proof fn lemma_strip_from_plain_prefix(a: Seq<char>, b: Seq<char>, i: int)
    requires
        plain(a),
        0 <= i <= a.len(),
    ensures
        strip_from(a + b, i) == a.skip(i) + strip(b),
    decreases a.len() - i,
{
    if i < a.len() {
        assert((a + b)[i] == a[i]);
        lemma_strip_from_plain_prefix(a, b, i + 1);
        assert(a.skip(i) + strip(b) =~= seq![a[i]] + (a.skip(i + 1) + strip(b)));
    } else {
        lemma_strip_from_shift(a, b, 0);
        assert(a.skip(i) + strip(b) =~= strip(b));
    }
}

/// A sequence starts behind plain words exactly where it starts in what
/// follows them.
pub proof fn lemma_has_escape_plain_prefix(a: Seq<char>, b: Seq<char>)
    requires
        plain(a),
    ensures
        has_escape(a + b) == has_escape(b),
{
    if has_escape(b) {
        let j = choose|j: int| 0 <= j < b.len() && escape_len(b, j) > 0;
        lemma_escape_len_shift(a, b, j);
        assert(0 <= a.len() + j < (a + b).len() && escape_len(a + b, a.len() + j) > 0);
    }
    if has_escape(a + b) {
        let i = choose|i: int| 0 <= i < (a + b).len() && escape_len(a + b, i) > 0;
        if i < a.len() {
            assert((a + b)[i] == a[i]);
        } else {
            lemma_escape_len_shift(a, b, i - a.len());
            assert(0 <= i - a.len() < b.len() && escape_len(b, i - a.len()) > 0);
        }
    }
}

/// Stripping a text that starts with plain words keeps those words and
/// strips what follows them.
pub proof fn lemma_strip_all_plain_prefix(a: Seq<char>, b: Seq<char>)
    requires
        plain(a),
    ensures
        strip_all(a + b) == a + strip_all(b),
    decreases b.len(),
{
    lemma_has_escape_plain_prefix(a, b);
    if has_escape(b) {
        lemma_strip_from_len(b, 0);
        lemma_strip_from_plain_prefix(a, b, 0);
        assert(a.skip(0) =~= a);
        lemma_strip_all_plain_prefix(a, strip(b));
    }
}

fn is_parameter_char(c: char) -> (b: bool)
    ensures
        b == is_parameter(c),
{
    ('0' <= c && c <= '9') || c == ';' || c == '?'
}

fn is_final_char(c: char) -> (b: bool)
    ensures
        b == is_final(c),
{
    ('A' <= c && c <= 'H') || c == 'J' || c == 'K' || c == 'S' || c == 'T' || c == 'f' || c == 'h'
        || c == 'i' || c == 'l' || c == 'm' || c == 'n' || c == 's' || c == 'u'
}

/// The length of the escape sequence that starts at `chars[i]`, or 0.
fn escape_length(chars: &Vec<char>, i: usize) -> (n: usize)
    requires
        i < chars.len(),
    ensures
        n == escape_len(chars@, i as int),
        i + n <= chars.len(),
{
    proof {
        lemma_escape_len_bounds(chars@, i as int);
    }
    let len = chars.len();
    if chars[i] != '\u{1b}' || len - i < 2 {
        return 0;
    }
    if chars[i + 1] == '[' {
        let mut j: usize = i + 2;
        while j < len && is_parameter_char(chars[j])
            invariant
                i + 2 <= j <= len,
                len == chars.len(),
                parameter_run(chars@, i + 2) == (j - (i + 2)) + parameter_run(chars@, j as int),
            decreases len - j,
        {
            j = j + 1;
        }
        if j < len && is_final_char(chars[j]) {
            j - i + 1
        } else {
            0
        }
    } else if chars[i + 1] == '(' && len - i >= 3 && chars[i + 2] == 'B' {
        3
    } else {
        0
    }
}

/// Reads the text once and skips the escape sequences met on the way.
fn strip_once(chars: &Vec<char>) -> (kept: Vec<char>)
    ensures
        kept@ == strip(chars@),
{
    let mut kept: Vec<char> = Vec::new();
    let mut i: usize = 0;
    while i < chars.len()
        invariant
            i <= chars.len(),
            strip(chars@) == kept@ + strip_from(chars@, i as int),
        decreases chars.len() - i,
    {
        let n = escape_length(chars, i);
        if n > 0 {
            i = i + n;
        } else {
            let ghost before = kept@;
            kept.push(chars[i]);
            assert(before + (seq![chars@[i as int]] + strip_from(chars@, i + 1)) =~= kept@
                + strip_from(chars@, i + 1));
            i = i + 1;
        }
    }
    assert(kept@ + strip_from(chars@, i as int) =~= kept@);
    kept
}

/// Takes the ANSI escape sequences out of `text`.
///
/// The compiler's messages carry colour and emphasis; editors show the plain
/// words. Every other character is kept, in order. No escape sequence
/// starts in the result, so doing it again changes nothing.
pub fn treat_colors(text: &str) -> (plain: String)
    ensures
        plain@ == strip_all(text@),
        !has_escape(plain@),
{
    let mut chars = characters(text);
    let mut kept = strip_once(&chars);
    while kept.len() < chars.len()
        invariant
            kept@ == strip(chars@),
            strip_all(text@) == strip_all(chars@),
        decreases chars.len(),
    {
        proof {
            lemma_strip_fixed_point(chars@);
        }
        chars = kept;
        kept = strip_once(&chars);
    }
    proof {
        lemma_strip_from_len(chars@, 0);
        lemma_strip_all_clean(text@);
    }
    let mut plain = String::new();
    let mut i: usize = 0;
    while i < chars.len()
        invariant
            i <= chars.len(),
            plain@ == chars@.take(i as int),
        decreases chars.len() - i,
    {
        plain.push(chars[i]);
        assert(chars@.take(i + 1) =~= chars@.take(i as int).push(chars@[i as int]));
        i = i + 1;
    }
    assert(chars@.take(i as int) =~= chars@);
    plain
}

} // verus!
