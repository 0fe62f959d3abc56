use bend_language_server::analysis::document::Document;
use bend_language_server::analysis::legend::Legend;
use bend_language_server::analysis::semantic_token::{
    encode, highlight_document, make_semantic_token, places_in_order, semantic_tokens,
};
use bend_language_server::analysis::session::Session;
use bend_language_server::language::bend;
use bend_language_server::language::highlight::HighlightEvent;
use bend_language_server::protocol::{Position, Range, SemanticToken};
use ropey::Rope;

const KEYWORD: u32 = 4;
const STRING: u32 = 5;
const FUNCTION: u32 = 6;
const PARAMETER: u32 = 1;

fn token(delta_line: u32, delta_start: u32, length: u32, token_type: u32) -> SemanticToken {
    SemanticToken { delta_line, delta_start, length, token_type, token_modifiers_bitset: 0 }
}

fn lines(first: u32, last: u32) -> Option<Range> {
    Some(Range::new(Position::new(first, 0), Position::new(last, 0)))
}

/// Adds up the differences of a token stream.
fn absolute(tokens: &[SemanticToken]) -> Vec<(u32, u32, u32, u32)> {
    let mut line = 0;
    let mut start = 0;
    let mut places = Vec::new();
    for t in tokens {
        if t.delta_line == 0 {
            start += t.delta_start;
        } else {
            line += t.delta_line;
            start = t.delta_start;
        }
        places.push((line, start, t.length, t.token_type));
    }
    places
}

fn open(text: &str) -> Document {
    Document::new_with_text("file:///main.bend".to_string(), text).unwrap()
}

/// Debugging test - tests steps from the semantic token generation algorithm.
#[test]
fn token_capture_test() {
    let session = Session::new(bend()).unwrap();
    let mut doc = open("\ndef main():\n  return \"Hi!\"\n");
    let text = doc.text.to_string();
    let names = session.legend.highlight_names().clone();

    let events = highlight_document(&session, &mut doc).unwrap();
    let mut stack = vec![];
    for event in &events {
        match *event {
            HighlightEvent::Start(k) => {
                let name = names[k];
                stack.push(name);
                println!("> start {}", name);
            }
            HighlightEvent::Source { start, end } => {
                println!("> {start}-{end}: {:?}", &text[start..end])
            }
            HighlightEvent::End => {
                println!("> end {}", stack.pop().unwrap());
            }
            HighlightEvent::Failed => {}
        }
    }
    println!();

    let mut tokens = vec![];
    let mut stack = vec![];
    let mut pre_line = 0;
    let mut pre_start = 0;
    for event in &events {
        match *event {
            HighlightEvent::Start(h) => stack.push(h),
            HighlightEvent::End => drop(stack.pop()),
            HighlightEvent::Source { mut start, end } => {
                if let Some(type_index) = stack.last().and_then(|curr| session.legend.type_index(*curr)) {
                    while start < end && char::from(doc.text.byte(start)).is_whitespace() {
                        start += 1;
                    }
                    println!(
                        "{}-{} {:?}: {}",
                        start,
                        end,
                        &text[start..end],
                        session.legend.token_types()[type_index as usize].name()
                    );
                    if let Some(token) =
                        make_semantic_token(&doc.text, start, end, type_index, &mut pre_line, &mut pre_start)
                    {
                        tokens.push(token);
                    }
                }
            }
            HighlightEvent::Failed => {}
        }
    }
    println!();

    println!("> got {} tokens", tokens.len());
    for token in &tokens {
        println!("{:?}", token);
    }
    assert_eq!(tokens, semantic_tokens(&session, &mut doc, None));
}

#[test]
fn tokens_of_a_small_program() {
    let session = Session::new(bend()).unwrap();
    let mut doc = open("def main():\n  return \"Hi!\"\n");
    let tokens = semantic_tokens(&session, &mut doc, None);
    assert_eq!(
        tokens,
        vec![
            token(0, 0, 3, KEYWORD),
            token(0, 4, 4, FUNCTION),
            token(0, 4, 2, PARAMETER),
            token(1, 2, 6, KEYWORD),
            token(0, 7, 5, STRING),
        ]
    );
    assert_eq!(tokens[0].delta_line, 0);
    assert_eq!(
        absolute(&tokens),
        vec![
            (0, 0, 3, KEYWORD),
            (0, 4, 4, FUNCTION),
            (0, 8, 2, PARAMETER),
            (1, 2, 6, KEYWORD),
            (1, 9, 5, STRING),
        ]
    );
}

#[test]
fn a_leading_blank_line_moves_the_first_token_down() {
    let session = Session::new(bend()).unwrap();
    let mut doc = open("\ndef main():\n  return \"Hi!\"\n");
    let tokens = semantic_tokens(&session, &mut doc, None);
    assert_eq!(tokens[0], token(1, 0, 3, KEYWORD));
    assert_eq!(tokens.len(), 5);
}

#[test]
fn highlighting_leaves_the_document_as_it_was() {
    let session = Session::new(bend()).unwrap();
    let mut doc = open("def main():\n  return 1\n");
    let first = semantic_tokens(&session, &mut doc, None);
    assert_eq!(doc.text.to_string(), "def main():\n  return 1\n");
    assert!(doc.tree.is_some());
    let second = semantic_tokens(&session, &mut doc, None);
    assert_eq!(first, second);
}

#[test]
fn an_empty_document_has_no_tokens() {
    let session = Session::new(bend()).unwrap();
    let mut doc = Document::new("file:///empty.bend".to_string()).unwrap();
    assert_eq!(semantic_tokens(&session, &mut doc, None), vec![]);
    assert_eq!(semantic_tokens(&session, &mut doc, lines(0, 3)), vec![]);
}

#[test]
fn absolute_places_never_go_back() {
    let session = Session::new(bend()).unwrap();
    let mut doc = open(
        "def add(a, b):\n  return a + b\n\ndef main():\n  x = add(1, 2)\n  return \"done\"\n",
    );
    let tokens = semantic_tokens(&session, &mut doc, None);
    assert!(tokens.len() > 8);
    let places = absolute(&tokens);
    for pair in places.windows(2) {
        assert!((pair[0].0, pair[0].1) <= (pair[1].0, pair[1].1));
    }
}

#[test]
fn places_match_the_text() {
    let session = Session::new(bend()).unwrap();
    let source = "def main():\n  return \"Hi!\"\n";
    let mut doc = open(source);
    let tokens = semantic_tokens(&session, &mut doc, None);
    let words = ["def", "main", "()", "return", "\"Hi!\""];
    let places = absolute(&tokens);
    assert_eq!(places.len(), words.len());
    for (place, word) in places.iter().zip(words) {
        let line = source.lines().nth(place.0 as usize).unwrap();
        let at = place.1 as usize;
        assert_eq!(&line[at..at + place.2 as usize], word);
    }
}

#[test]
fn a_range_gives_the_tokens_of_its_lines() {
    let session = Session::new(bend()).unwrap();
    let mut doc = open("def main():\n  return \"Hi!\"\n");
    let whole = absolute(&semantic_tokens(&session, &mut doc, None));

    let second = semantic_tokens(&session, &mut doc, lines(1, 1));
    assert_eq!(second, vec![token(1, 2, 6, KEYWORD), token(0, 7, 5, STRING)]);
    assert_eq!(absolute(&second), whole[3..].to_vec());

    let first = semantic_tokens(&session, &mut doc, lines(0, 0));
    assert_eq!(
        first,
        vec![token(0, 0, 3, KEYWORD), token(0, 4, 4, FUNCTION), token(0, 4, 2, PARAMETER)]
    );
    assert_eq!(absolute(&first), whole[..3].to_vec());

    let both = semantic_tokens(&session, &mut doc, lines(0, 1));
    assert_eq!(absolute(&both), whole);
    let all = semantic_tokens(&session, &mut doc, lines(0, 2));
    assert_eq!(absolute(&all), whole);
    assert_eq!(semantic_tokens(&session, &mut doc, lines(2, 2)), vec![]);
}

#[test]
fn the_characters_of_a_range_do_not_count() {
    let session = Session::new(bend()).unwrap();
    let mut doc = open("def main():\n  return \"Hi!\"\n");
    let range = Some(Range::new(Position::new(1, 0), Position::new(1, 14)));
    let whole_line = semantic_tokens(&session, &mut doc, lines(1, 1));
    assert_eq!(semantic_tokens(&session, &mut doc, range), whole_line);
    let inside = Some(Range::new(Position::new(1, 9), Position::new(1, 10)));
    assert_eq!(semantic_tokens(&session, &mut doc, inside), whole_line);
    assert_eq!(whole_line.len(), 2);
}

#[test]
fn a_range_is_a_part_of_the_whole() {
    let session = Session::new(bend()).unwrap();
    let mut doc = open(
        "def add(a, b):\n  return a + b\n\ndef main():\n  x = add(1, 2)\n  return \"done\"\n",
    );
    assert!(places_in_order(&doc.text));
    let whole = absolute(&semantic_tokens(&session, &mut doc, None));
    for first in 0..7 {
        for last in first..8 {
            let part = absolute(&semantic_tokens(&session, &mut doc, lines(first, last)));
            // No stretch of this program runs over a line break, so the
            // tokens of the range are those on its lines.
            let owed: Vec<_> =
                whole.iter().filter(|p| first <= p.0 && p.0 <= last).cloned().collect();
            assert_eq!(part, owed, "lines {first}..{last}");
        }
    }
}

#[test]
fn texts_place_their_offsets_in_order() {
    for text in [
        "",
        "a",
        "def main():\n  return \"Hi!\"\n",
        "one\r\ntwo\rthree\nfour\u{b}five\u{c}six\u{85}seven\u{2028}eight\u{2029}nine",
        "a\u{1F980}b é\u{10000}c\n\u{1F980}\u{1F980}\n",
        "\n\n\n",
        "\r\n\r\n",
    ] {
        assert!(places_in_order(&Rope::from_str(text)), "text {:?}", text);
    }
}

#[test]
fn a_range_behind_the_text_is_taken_as_its_end() {
    let session = Session::new(bend()).unwrap();
    let mut doc = open("def main():\n  return \"Hi!\"\n");
    assert_eq!(semantic_tokens(&session, &mut doc, lines(10, 20)), vec![]);
    let whole = semantic_tokens(&session, &mut doc, None);
    assert_eq!(semantic_tokens(&session, &mut doc, lines(0, 1000)), whole);
}

#[test]
fn make_semantic_token_counts_from_the_token_before() {
    let code = Rope::from_str("ab cd\n  ef gh\n");
    let (mut line, mut start) = (0, 0);

    let t = make_semantic_token(&code, 3, 5, 7, &mut line, &mut start);
    assert_eq!(t, Some(token(0, 3, 2, 7)));
    assert_eq!((line, start), (0, 3));

    let t = make_semantic_token(&code, 8, 10, 2, &mut line, &mut start);
    assert_eq!(t, Some(token(1, 2, 2, 2)));
    assert_eq!((line, start), (1, 2));

    let t = make_semantic_token(&code, 11, 13, 9, &mut line, &mut start);
    assert_eq!(t, Some(token(0, 3, 2, 9)));
    assert_eq!((line, start), (1, 5));

    let t = make_semantic_token(&code, 11, 11, 9, &mut line, &mut start);
    assert_eq!(t, Some(token(0, 0, 0, 9)));
}

#[test]
fn make_semantic_token_drops_a_token_that_goes_back() {
    let code = Rope::from_str("ab cd\n  ef gh\n");
    let (mut line, mut start) = (1, 5);
    assert_eq!(make_semantic_token(&code, 8, 10, 0, &mut line, &mut start), None);
    assert_eq!((line, start), (1, 5));
    assert_eq!(make_semantic_token(&code, 0, 2, 0, &mut line, &mut start), None);
    assert_eq!((line, start), (1, 5));
}

#[test]
fn make_semantic_token_has_no_token_behind_the_text() {
    let code = Rope::from_str("ab\n");
    let (mut line, mut start) = (0, 0);
    assert_eq!(make_semantic_token(&code, 4, 6, 0, &mut line, &mut start), None);
    assert_eq!((line, start), (0, 0));
    assert_eq!(make_semantic_token(&code, 3, 3, 0, &mut line, &mut start), Some(token(1, 0, 0, 0)));
}

#[test]
fn columns_count_utf16_code_units() {
    let code = Rope::from_str("a\u{1F980}b é\u{10000}c\n");
    let (mut line, mut start) = (0, 0);
    // 'b' stands behind one byte and one character of four bytes.
    assert_eq!(make_semantic_token(&code, 5, 6, 0, &mut line, &mut start), Some(token(0, 3, 1, 0)));
    // 'c' stands at unit 8: behind 'a', two units, 'b', a space, one unit for
    // the character of two bytes and two for the one of four.
    assert_eq!(make_semantic_token(&code, 13, 14, 0, &mut line, &mut start), Some(token(0, 5, 1, 0)));
    assert_eq!((line, start), (0, 8));
}

fn plain_events(events: &[HighlightEvent], text: &str, window: Option<(usize, usize)>) -> Vec<SemanticToken> {
    encode(&events.to_vec(), &Rope::from_str(text), &Legend::new(), window)
}

#[test]
fn the_innermost_highlight_decides() {
    let text = "abcdefgh\n";
    let events = [
        HighlightEvent::Start(0),
        HighlightEvent::Source { start: 0, end: 2 },
        HighlightEvent::Start(4),
        HighlightEvent::Source { start: 2, end: 5 },
        HighlightEvent::End,
        HighlightEvent::Source { start: 5, end: 7 },
        HighlightEvent::End,
        HighlightEvent::Source { start: 7, end: 9 },
    ];
    assert_eq!(
        plain_events(&events, text, None),
        vec![token(0, 0, 2, 0), token(0, 2, 3, KEYWORD), token(0, 3, 2, 0)]
    );
}

#[test]
fn leading_white_space_is_not_part_of_a_token() {
    let text = "a \n\t bc  \n";
    let events = [HighlightEvent::Start(10), HighlightEvent::Source { start: 1, end: 9 }];
    assert_eq!(plain_events(&events, text, None), vec![token(1, 2, 4, STRING)]);
    let blank = [HighlightEvent::Start(10), HighlightEvent::Source { start: 1, end: 5 }];
    assert_eq!(plain_events(&blank, text, None), vec![token(1, 2, 0, STRING)]);
}

#[test]
fn every_kind_of_white_space_is_skipped() {
    // Tab, carriage return and line feed, vertical tab, form feed, space.
    let text = "\t\r\n\u{b}\u{c} x\n";
    let events = [HighlightEvent::Start(4), HighlightEvent::Source { start: 0, end: 7 }];
    assert_eq!(plain_events(&events, text, None), vec![token(3, 1, 1, KEYWORD)]);
}

#[test]
fn bytes_are_read_one_by_one_when_white_space_is_skipped() {
    // U+00A0 is written as the bytes C2 A0, and U+0085 as C2 85.
    let text = "a\u{a0}b\u{85}c\n";
    // From the second byte of U+00A0 on: that byte counts as white space.
    let inside = [HighlightEvent::Start(4), HighlightEvent::Source { start: 2, end: 4 }];
    assert_eq!(plain_events(&inside, text, None), vec![token(0, 2, 1, KEYWORD)]);
    // From its first byte on: nothing is skipped.
    let whole = [HighlightEvent::Start(4), HighlightEvent::Source { start: 1, end: 4 }];
    assert_eq!(plain_events(&whole, text, None), vec![token(0, 1, 3, KEYWORD)]);
    // From the second byte of U+0085 on.
    let next = [HighlightEvent::Start(4), HighlightEvent::Source { start: 5, end: 7 }];
    assert_eq!(plain_events(&next, text, None).len(), 1);
    assert_eq!(plain_events(&next, text, None)[0].length, 1);
}

#[test]
fn a_highlight_without_a_token_type_gives_no_token() {
    let text = "abcdef\n";
    let events = [
        HighlightEvent::Start(20),
        HighlightEvent::Source { start: 0, end: 3 },
        HighlightEvent::End,
        HighlightEvent::Start(19),
        HighlightEvent::Source { start: 3, end: 6 },
        HighlightEvent::End,
    ];
    assert_eq!(plain_events(&events, text, None), vec![token(0, 3, 3, 9)]);
}

#[test]
fn odd_events_are_passed_over() {
    let text = "abcdef\n";
    let events = [
        HighlightEvent::End,
        HighlightEvent::Failed,
        HighlightEvent::Source { start: 0, end: 1 },
        HighlightEvent::Start(4),
        HighlightEvent::Failed,
        HighlightEvent::Source { start: 3, end: 2 },
        HighlightEvent::Source { start: 40, end: 50 },
        HighlightEvent::Source { start: 4, end: 6 },
        HighlightEvent::Source { start: 1, end: 2 },
    ];
    assert_eq!(plain_events(&events, text, None), vec![token(0, 4, 2, KEYWORD)]);
    assert_eq!(plain_events(&[], text, None), vec![]);
}

#[test]
fn a_window_skips_what_lies_before_and_stops_behind() {
    let text = "ab\ncd\nef\ngh\n";
    let events = [
        HighlightEvent::Start(4),
        HighlightEvent::Source { start: 0, end: 2 },
        HighlightEvent::Source { start: 3, end: 5 },
        HighlightEvent::Source { start: 6, end: 8 },
        HighlightEvent::Source { start: 9, end: 11 },
        HighlightEvent::Source { start: 4, end: 5 },
    ];
    let second = token(1, 0, 2, KEYWORD);
    // The second line: the bytes 3, 4 and 5.
    assert_eq!(plain_events(&events, text, Some((3, 6))), vec![second]);
    // The second and the third line.
    assert_eq!(plain_events(&events, text, Some((3, 9))), vec![second, token(1, 0, 2, KEYWORD)]);
    // One byte of a stretch is enough.
    assert_eq!(plain_events(&events, text, Some((4, 7))), vec![second, token(1, 0, 2, KEYWORD)]);
    assert_eq!(plain_events(&events, text, Some((4, 5))), vec![second]);
    // The first line.
    assert_eq!(plain_events(&events, text, Some((0, 3))), vec![token(0, 0, 2, KEYWORD)]);
    // A stretch that ends where the window starts lies before it, and one
    // that starts where the window ends lies behind it.
    assert_eq!(plain_events(&events, text, Some((2, 3))), vec![]);
    assert_eq!(plain_events(&events, text, Some((5, 6))), vec![]);
    // A window without a byte.
    assert_eq!(plain_events(&events, text, Some((5, 5))), vec![]);
    assert_eq!(plain_events(&events, text, Some((0, 0))), vec![]);
    assert_eq!(plain_events(&events, text, Some((20, 30))), vec![]);
}

#[test]
fn the_highlighter_walks_the_text_once() {
    let session = Session::new(bend()).unwrap();
    let source = "def add(a, b):\n  return a + b\n\ndef main():\n  x = add(1, 2)\n  return \"done\"\n";
    let mut doc = open(source);
    let events = highlight_document(&session, &mut doc).unwrap();
    let mut reach = 0;
    let mut depth = 0_usize;
    for event in &events {
        match *event {
            HighlightEvent::Source { start, end } => {
                assert_eq!(start, reach);
                assert!(start < end);
                reach = end;
            }
            HighlightEvent::Start(h) => {
                assert!(h < session.legend.highlight_names().len());
                depth += 1;
            }
            HighlightEvent::End => depth -= 1,
            HighlightEvent::Failed => panic!("the highlighter failed"),
        }
    }
    assert_eq!(reach, source.len());
    assert_eq!(depth, 0);
}

#[test]
fn events_out_of_order_can_give_a_window_more_than_the_whole() {
    let text = "abcdefghijklmnopqrstuvwxyzabcdefghijklmnopqrstuvwxyzabcdefghij\n";
    let events = [
        HighlightEvent::Start(4),
        HighlightEvent::Source { start: 10, end: 12 },
        HighlightEvent::Source { start: 0, end: 50 },
    ];
    // Taken as a whole, the second stretch goes back and is dropped.
    assert_eq!(plain_events(&events, text, None), vec![token(0, 10, 2, KEYWORD)]);
    // In a window behind the first stretch, nothing stands before the second.
    assert_eq!(plain_events(&events, text, Some((13, 60))), vec![token(0, 0, 50, KEYWORD)]);
}
