use bend_language_server::analysis::legend::{Legend, TokenType};

#[test]
fn the_legend_lists_each_token_type_once_in_table_order() {
    let legend = Legend::new();
    assert_eq!(
        legend.token_types(),
        &vec![
            TokenType::Variable,
            TokenType::Parameter,
            TokenType::EnumMember,
            TokenType::Type,
            TokenType::Keyword,
            TokenType::Str,
            TokenType::Function,
            TokenType::Number,
            TokenType::Comment,
            TokenType::Operator,
        ]
    );
}

#[test]
fn the_highlight_names_are_the_rows_of_the_table() {
    let legend = Legend::new();
    let names = legend.highlight_names();
    assert_eq!(names.len(), 20);
    assert_eq!(names[0], "variable");
    assert_eq!(names[3], "property");
    assert_eq!(names[9], "keyword.type");
    assert_eq!(names[19], "operator");
}

#[test]
fn index_of_gives_the_place_of_the_token_type() {
    let legend = Legend::new();
    assert_eq!(legend.index_of("variable"), Some(0));
    assert_eq!(legend.index_of("variable.parameter"), Some(1));
    assert_eq!(legend.index_of("variable.member"), Some(2));
    assert_eq!(legend.index_of("property"), Some(3));
    assert_eq!(legend.index_of("type"), Some(3));
    assert_eq!(legend.index_of("keyword"), Some(4));
    assert_eq!(legend.index_of("keyword.return"), Some(4));
    assert_eq!(legend.index_of("string"), Some(5));
    assert_eq!(legend.index_of("character.special"), Some(5));
    assert_eq!(legend.index_of("function.call"), Some(6));
    assert_eq!(legend.index_of("number.float"), Some(7));
    assert_eq!(legend.index_of("comment"), Some(8));
    assert_eq!(legend.index_of("operator"), Some(9));
}

#[test]
fn index_of_has_nothing_for_other_names() {
    let legend = Legend::new();
    assert_eq!(legend.index_of("constructor"), None);
    assert_eq!(legend.index_of("punctuation.bracket"), None);
    assert_eq!(legend.index_of(""), None);
    assert_eq!(legend.index_of("Keyword"), None);
    assert_eq!(legend.index_of("keyword."), None);
}

#[test]
fn index_of_is_stable() {
    let a = Legend::new();
    let b = Legend::new();
    for name in a.highlight_names().clone() {
        assert_eq!(a.index_of(name), b.index_of(name));
        assert_eq!(a.index_of(name), a.index_of(name));
    }
    assert_eq!(a.token_types(), b.token_types());
}

#[test]
fn type_index_goes_by_the_row() {
    let legend = Legend::new();
    for (row, name) in legend.highlight_names().clone().into_iter().enumerate() {
        assert_eq!(legend.type_index(row), legend.index_of(name));
    }
    assert_eq!(legend.type_index(20), None);
    assert_eq!(legend.type_index(usize::MAX), None);
}

#[test]
fn a_table_of_ones_own() {
    let legend = Legend::from_table(
        vec!["b", "a", "b", "c"],
        vec![TokenType::Comment, TokenType::Number, TokenType::Keyword, TokenType::Comment],
    );
    assert_eq!(legend.token_types(), &vec![TokenType::Comment, TokenType::Number, TokenType::Keyword]);
    assert_eq!(legend.index_of("a"), Some(1));
    assert_eq!(legend.index_of("b"), Some(0));
    assert_eq!(legend.index_of("c"), Some(0));
    assert_eq!(legend.type_index(2), Some(2));
    let empty = Legend::from_table(vec![], vec![]);
    assert!(empty.token_types().is_empty());
    assert_eq!(empty.index_of("a"), None);
}

#[test]
fn token_types_have_their_protocol_names() {
    assert_eq!(TokenType::Variable.name(), "variable");
    assert_eq!(TokenType::Parameter.name(), "parameter");
    assert_eq!(TokenType::EnumMember.name(), "enumMember");
    assert_eq!(TokenType::Type.name(), "type");
    assert_eq!(TokenType::Keyword.name(), "keyword");
    assert_eq!(TokenType::Str.name(), "string");
    assert_eq!(TokenType::Function.name(), "function");
    assert_eq!(TokenType::Number.name(), "number");
    assert_eq!(TokenType::Comment.name(), "comment");
    assert_eq!(TokenType::Operator.name(), "operator");
}
