use bend_language_server::utils::color_wrapper::treat_colors;
use regex::Regex;

fn pattern() -> Regex {
    Regex::new(r"\u{1b}(\[[0-9;?]*[A-HJKSTfhilmnsu]|\(B)").unwrap()
}

/// Replaces every match by nothing, again and again until none is left.
fn by_pattern(text: &str) -> String {
    let mut text = text.to_string();
    loop {
        let next = pattern().replace_all(&text, "").to_string();
        if next == text {
            return text;
        }
        text = next;
    }
}

#[test]
fn plain_text_is_kept() {
    assert_eq!(treat_colors(""), "");
    assert_eq!(treat_colors("no styling here"), "no styling here");
    assert_eq!(treat_colors("unicode: λ → ∀ 🦀"), "unicode: λ → ∀ 🦀");
}

#[test]
fn colour_sequences_are_removed() {
    assert_eq!(treat_colors("\u{1b}[31mred\u{1b}[0m"), "red");
    assert_eq!(
        treat_colors("\u{1b}[1mIn definition '\u{1b}[4mmain\u{1b}[0m\u{1b}[1m':\u{1b}[0m\n"),
        "In definition 'main':\n"
    );
    assert_eq!(treat_colors("a\u{1b}[1;31;4mb\u{1b}[?25hc"), "abc");
    assert_eq!(treat_colors("x\u{1b}[Ky"), "xy");
}

#[test]
fn charset_sequence_is_removed() {
    assert_eq!(treat_colors("a\u{1b}(Bb"), "ab");
    assert_eq!(treat_colors("\u{1b}(B"), "");
}

#[test]
fn incomplete_sequences_are_kept() {
    assert_eq!(treat_colors("\u{1b}"), "\u{1b}");
    assert_eq!(treat_colors("\u{1b}["), "\u{1b}[");
    assert_eq!(treat_colors("\u{1b}[12;"), "\u{1b}[12;");
    assert_eq!(treat_colors("\u{1b}[12x"), "\u{1b}[12x");
    assert_eq!(treat_colors("\u{1b}[I"), "\u{1b}[I");
    assert_eq!(treat_colors("\u{1b}(A"), "\u{1b}(A");
    assert_eq!(treat_colors("\u{1b}("), "\u{1b}(");
    assert_eq!(treat_colors("\u{1b}]0;title"), "\u{1b}]0;title");
}

#[test]
fn reading_goes_on_behind_a_sequence() {
    assert_eq!(treat_colors("\u{1b}[0m[0m"), "[0m");
    assert_eq!(treat_colors("\u{1b}[31m\u{1b}[1mx"), "x");
}

#[test]
fn sequences_that_come_together_are_removed_too() {
    assert_eq!(treat_colors("\u{1b}\u{1b}[0m[0m"), "");
    assert_eq!(treat_colors("\u{1b}[\u{1b}[0mm"), "");
    assert_eq!(treat_colors("a\u{1b}\u{1b}(B(Bb"), "ab");
    assert_eq!(treat_colors("\u{1b}\u{1b}\u{1b}[1m[2m[3mx"), "x");
    assert_eq!(treat_colors("\u{1b}[1\u{1b}[0m;2\u{1b}(Bmy"), "y");
    assert_eq!(treat_colors("\u{1b}\u{1b}[0m[0"), "\u{1b}[0");
}

#[test]
fn no_sequence_is_left() {
    let samples = [
        "\u{1b}\u{1b}[0m[0m",
        "\u{1b}[\u{1b}[0mm",
        "\u{1b}\u{1b}\u{1b}[1m[2m[3mx",
        "\u{1b}[31mred\u{1b}[0m",
        "\u{1b}(\u{1b}(BB",
        "\u{1b}[12;",
    ];
    for s in samples {
        assert!(!pattern().is_match(&treat_colors(s)), "input {:?}", s);
    }
}

#[test]
fn stripping_twice_equals_stripping_once() {
    let samples = [
        "\u{1b}[31mred\u{1b}[0m",
        "plain",
        "\u{1b}[1mDuring readback:\u{1b}[0m\n  oops",
        "a\u{1b}(Bb\u{1b}[2Jc",
        "\u{1b}\u{1b}[0m[0m",
        "\u{1b}[\u{1b}[0mm",
        "\u{1b}\u{1b}\u{1b}[1m[2m[3mx",
        "\u{1b}\u{1b}[0m[0",
        "\u{1b}",
    ];
    for s in samples {
        let once = treat_colors(s);
        assert_eq!(treat_colors(&once), once, "input {:?}", s);
    }
}

#[test]
fn plain_words_in_front_are_kept() {
    let rests = [
        "",
        "\u{1b}[31mred\u{1b}[0m",
        "\u{1b}\u{1b}[0m[0m",
        "\u{1b}[\u{1b}[0mm tail",
        "\u{1b}[12;",
        "\u{1b}",
    ];
    for front in ["", "plain ", "[0m", "(B;?m", "ünï 🦀"] {
        for rest in rests {
            let whole = format!("{front}{rest}");
            assert_eq!(treat_colors(&whole), format!("{front}{}", treat_colors(rest)));
        }
    }
    // Words behind a text can end a sequence that the text left open.
    assert_eq!(treat_colors("\u{1b}[12;"), "\u{1b}[12;");
    assert_eq!(treat_colors("\u{1b}[12;m"), "");
}

#[test]
fn agrees_with_the_pattern() {
    let samples = [
        "",
        "plain",
        "\u{1b}[31mred\u{1b}[0m",
        "\u{1b}\u{1b}[0m[0m",
        "\u{1b}[\u{1b}[0mm",
        "\u{1b}[12;",
        "\u{1b}[?25l hidden \u{1b}[?25h",
        "\u{1b}(B\u{1b}(A\u{1b}(",
        "tail \u{1b}",
        "tail \u{1b}[",
        "\u{1b}[;;;;m",
        "\u{1b}[I\u{1b}[J\u{1b}[g\u{1b}[f",
        "ünï\u{1b}[1mcödé\u{1b}[0m 🦀",
        "\u{1b}[1mIn definition '\u{1b}[4mmain\u{1b}[0m\u{1b}[1m':\u{1b}[0m\n",
    ];
    for s in samples {
        assert_eq!(treat_colors(s), by_pattern(s), "input {:?}", s);
    }
}

#[test]
fn agrees_with_the_pattern_on_short_strings() {
    let alphabet = ['\u{1b}', '[', '(', 'B', '0', ';', 'm', 'x'];
    let mut words: Vec<String> = vec![String::new()];
    for _ in 0..5 {
        let mut next = Vec::new();
        for w in &words {
            for c in alphabet {
                let mut t = w.clone();
                t.push(c);
                next.push(t);
            }
        }
        for w in &next {
            let once = treat_colors(w);
            assert_eq!(once, by_pattern(w), "input {:?}", w);
            assert_eq!(treat_colors(&once), once, "input {:?}", w);
        }
        words = next;
    }
}
