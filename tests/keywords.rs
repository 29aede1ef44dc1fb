use cfmt::Token::{Identifier, Keyword};
use cfmt::TokenKeyword;
use cfmt::{Lexer, Token};

const TABLE: [(&str, TokenKeyword); 17] = [
    ("if", TokenKeyword::If),
    ("else", TokenKeyword::Else),
    ("return", TokenKeyword::Return),
    ("unsigned", TokenKeyword::Unsigned),
    ("for", TokenKeyword::For),
    ("do", TokenKeyword::Do),
    ("while", TokenKeyword::While),
    ("goto", TokenKeyword::Goto),
    ("switch", TokenKeyword::Switch),
    ("case", TokenKeyword::Case),
    ("const", TokenKeyword::Const),
    ("volatile", TokenKeyword::Volatile),
    ("external", TokenKeyword::External),
    ("static", TokenKeyword::Static),
    ("auto", TokenKeyword::Auto),
    ("struct", TokenKeyword::Struct),
    ("union", TokenKeyword::Union),
];

#[test]
fn every_reserved_word_is_found() {
    for (word, keyword) in TABLE {
        assert_eq!(TokenKeyword::from(word), Some(keyword));
    }
}

#[test]
fn other_words_are_not_keywords() {
    for word in ["", "For", "IF", "foreign", "int", "fo", "unionx", "_if"] {
        assert_eq!(TokenKeyword::from(word), None);
    }
}

#[test]
fn reserved_words_classify_the_same_in_any_context() {
    for (word, keyword) in TABLE {
        let source = format!("({word}){word};{word}");
        let tokens = Lexer::new(source).collect_tokens().unwrap();
        let words: Vec<Token> = tokens
            .into_iter()
            .filter(|t| matches!(t, Keyword(_) | Identifier(_)))
            .collect();
        assert_eq!(words, vec![Keyword(keyword), Keyword(keyword), Keyword(keyword)]);
    }
}

#[test]
fn other_runs_are_identifiers() {
    let tokens = Lexer::new("whiles do_ returned".to_string()).collect_tokens().unwrap();
    assert_eq!(
        tokens,
        vec![
            Identifier("whiles".to_string()),
            Identifier("do_".to_string()),
            Identifier("returned".to_string()),
        ]
    );
}
