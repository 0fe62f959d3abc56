use bend_language_server::utils::text::{characters, same_bytes, same_text};

#[test]
fn the_characters_of_a_string() {
    assert_eq!(characters(""), Vec::<char>::new());
    assert_eq!(characters("añ🦀"), vec!['a', 'ñ', '🦀']);
}

#[test]
fn strings_are_compared_character_by_character() {
    assert!(same_text("", ""));
    assert!(same_text("keyword.return", "keyword.return"));
    assert!(!same_text("keyword", "keyword.return"));
    assert!(!same_text("keyword.return", "keyword"));
    assert!(!same_text("a", "b"));
    assert!(same_text("ñ🦀", "ñ🦀"));
    assert!(!same_text("ñ", "n"));
}

#[test]
fn bytes_are_compared_one_by_one() {
    assert!(same_bytes(b"", b""));
    assert!(same_bytes(b"abc", b"abc"));
    assert!(!same_bytes(b"abc", b"abd"));
    assert!(!same_bytes(b"abc", b"ab"));
    assert!(!same_bytes(b"", b"a"));
}
