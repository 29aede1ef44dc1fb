use cfmt::Direction::{Left, Right};
use cfmt::Token::{
    Ampersand, Arrow, Bang, BangEqual, Brace, Bracket, Caret, Comma, Dot, Equal, EqualEqual,
    Greater, GreaterEqual, Identifier, Keyword, Less, LessEqual, Minus, MinusMinus, Number,
    Parenthesis, Plus, PlusPlus, Semicolon, Slash, SlashSlash, SlashStar, Star, Str, Tilde,
};
use cfmt::TokenKeyword::{Auto, For};
use cfmt::{Lexer, LexerError, ParseTree, Parser, Token};

fn lex(input: &str) -> Result<Vec<Token>, LexerError> {
    Lexer::new(input.to_string()).collect_tokens()
}

#[test]
fn empty_string() {
    let input = "".to_string();
    let expected: Vec<Token> = vec![];

    let lexer = Lexer::new(input);
    let result = lexer.collect_tokens().unwrap();
    assert_eq!(result, expected);
}

#[test]
fn single_integer() {
    let input = "24".to_string();
    let expected = vec![Number("24".to_string())];

    let lexer = Lexer::new(input);
    let result = lexer.collect_tokens().unwrap();
    assert_eq!(result, expected);
}

#[test]
fn single_float() {
    let input = "4.63".to_string();
    let expected = vec![Number("4.63".to_string())];

    let lexer = Lexer::new(input);
    let result = lexer.collect_tokens().unwrap();
    assert_eq!(result, expected);
}

#[test]
fn single_string() {
    let input = "\"Hello, World!\"".to_string();
    let expected = vec![Str("Hello, World!".to_string())];

    let lexer = Lexer::new(input);
    let result = lexer.collect_tokens().unwrap();
    assert_eq!(result, expected);
}

#[test]
fn complex_access() {
    let input = "a.b->c.d->e".to_string();
    let expected = vec![
        Identifier("a".to_string()),
        Dot,
        Identifier("b".to_string()),
        Arrow,
        Identifier("c".to_string()),
        Dot,
        Identifier("d".to_string()),
        Arrow,
        Identifier("e".to_string()),
    ];

    let lexer = Lexer::new(input);
    let result = lexer.collect_tokens().unwrap();
    assert_eq!(result, expected);
}

#[test]
fn for_loop() {
    let input = "for (int i = 0; i < n; ++i)".to_string();
    let expected = vec![
        Keyword(For),
        Parenthesis(Left),
        Identifier("int".to_string()),
        Identifier("i".to_string()),
        Equal,
        Number("0".to_string()),
        Semicolon,
        Identifier("i".to_string()),
        Less,
        Identifier("n".to_string()),
        Semicolon,
        PlusPlus,
        Identifier("i".to_string()),
        Parenthesis(Right),
    ];

    let lexer = Lexer::new(input);
    let result = lexer.collect_tokens().unwrap();
    assert_eq!(result, expected);
}

#[test]
fn maximum_munch() {
    let input = "for foreign auto automatic".to_string();
    let expected = vec![
        Keyword(For),
        Str("foreign".to_string()),
        Keyword(Auto),
        Str("auto".to_string()),
    ];
    let _ = (input, expected);
}

#[test]
fn hello_world() {
    let input = "int main(int argc, char** argv) { printf(\"Hello, World!\"); }";
    let expected = vec![
        Identifier("int".to_string()),
        Identifier("main".to_string()),
        Parenthesis(Left),
        Identifier("int".to_string()),
        Identifier("argc".to_string()),
        Comma,
        Identifier("char".to_string()),
        Star,
        Star,
        Identifier("argv".to_string()),
        Parenthesis(Right),
        Brace(Left),
        Identifier("printf".to_string()),
        Parenthesis(Left),
        Str("Hello, World!".to_string()),
        Parenthesis(Right),
        Semicolon,
        Brace(Right),
    ];

    let lexer = Lexer::new(input.to_string());
    let result = lexer.collect_tokens().unwrap();
    assert_eq!(expected, result);
}

#[test]
fn whitespace_only_gives_no_tokens() {
    assert_eq!(lex(" \t\n\r  \n").unwrap(), vec![]);
    assert_eq!(lex("\u{A0}\u{2003}\u{3000}").unwrap(), vec![]);
}

#[test]
fn keyword_then_longer_word() {
    assert_eq!(
        lex("for foreign auto automatic").unwrap(),
        vec![
            Keyword(For),
            Identifier("foreign".to_string()),
            Keyword(Auto),
            Identifier("automatic".to_string()),
        ]
    );
}

#[test]
fn plus_plus_is_one_token() {
    assert_eq!(lex("++").unwrap(), vec![PlusPlus]);
    assert_eq!(lex("+++").unwrap(), vec![PlusPlus, Plus]);
    assert_eq!(lex("+ +").unwrap(), vec![Plus, Plus]);
}

#[test]
fn every_operator() {
    assert_eq!(
        lex("- -- -> ! != = == > >= < <= ~ ^ & , . ; * / [ ] { } ( )").unwrap(),
        vec![
            Minus,
            MinusMinus,
            Arrow,
            Bang,
            BangEqual,
            Equal,
            EqualEqual,
            Greater,
            GreaterEqual,
            Less,
            LessEqual,
            Tilde,
            Caret,
            Ampersand,
            Comma,
            Dot,
            Semicolon,
            Star,
            Slash,
            Bracket(Left),
            Bracket(Right),
            Brace(Left),
            Brace(Right),
            Parenthesis(Left),
            Parenthesis(Right),
        ]
    );
}

#[test]
fn longest_operator_without_spaces() {
    assert_eq!(lex("a-->b").unwrap(), vec![
        Identifier("a".to_string()),
        MinusMinus,
        Greater,
        Identifier("b".to_string()),
    ]);
    assert_eq!(lex("===").unwrap(), vec![EqualEqual, Equal]);
}

#[test]
fn number_text_is_kept() {
    assert_eq!(lex("4.63").unwrap(), vec![Number("4.63".to_string())]);
    assert_eq!(lex("007.").unwrap(), vec![Number("007.".to_string())]);
    assert_eq!(lex("3.x").unwrap(), vec![Number("3.".to_string()), Identifier("x".to_string())]);
}

#[test]
fn second_decimal_point_is_invalid() {
    assert_eq!(lex("1.2.3"), Err(LexerError::InvalidNumber));
    assert_eq!(lex("x = 1..2"), Err(LexerError::InvalidNumber));
}

#[test]
fn unknown_characters_are_errors() {
    assert_eq!(lex("$"), Err(LexerError::UnknownCharacter));
    assert_eq!(lex("a @ b"), Err(LexerError::UnknownCharacter));
    assert_eq!(lex("#include"), Err(LexerError::UnknownCharacter));
}

#[test]
fn escaped_quote_does_not_end_string() {
    assert_eq!(lex("\"a\\\"b\"").unwrap(), vec![Str("a\\\"b".to_string())]);
}

#[test]
fn escaped_backslash_does_not_escape_quote() {
    assert_eq!(
        lex("\"a\\\\\" x").unwrap(),
        vec![Str("a\\\\".to_string()), Identifier("x".to_string())]
    );
}

#[test]
fn unterminated_string_keeps_what_was_read() {
    assert_eq!(lex("\"abc").unwrap(), vec![Str("abc".to_string())]);
    assert_eq!(lex("\"").unwrap(), vec![Str("".to_string())]);
}

#[test]
fn line_comment_runs_to_end_of_line() {
    assert_eq!(
        lex("a // note\nb").unwrap(),
        vec![
            Identifier("a".to_string()),
            SlashSlash(" note".to_string()),
            Identifier("b".to_string()),
        ]
    );
    assert_eq!(lex("//end").unwrap(), vec![SlashSlash("end".to_string())]);
}

#[test]
fn block_comment_body_is_empty() {
    assert_eq!(
        lex("/* x */").unwrap(),
        vec![SlashStar("".to_string()), Identifier("x".to_string()), Star, Slash]
    );
}

#[test]
fn non_ascii_word_and_number_characters() {
    assert_eq!(lex("x\u{E9}_1").unwrap(), vec![Identifier("x\u{E9}_1".to_string())]);
    assert_eq!(lex("1\u{B2}").unwrap(), vec![Number("1\u{B2}".to_string())]);
    assert_eq!(lex("\u{E9}"), Err(LexerError::UnknownCharacter));
}

#[test]
fn pulling_tokens_one_at_a_time() {
    let mut lexer = Lexer::new("a +".to_string());
    assert_eq!(lexer.next(), Some(Ok(Identifier("a".to_string()))));
    assert_eq!(lexer.next(), Some(Ok(Plus)));
    assert_eq!(lexer.next(), None);
    assert_eq!(lexer.next(), None);
}

#[test]
fn pulling_after_an_error_repeats_it() {
    let mut lexer = Lexer::new("a $".to_string());
    assert_eq!(lexer.next(), Some(Ok(Identifier("a".to_string()))));
    assert_eq!(lexer.next(), Some(Err(LexerError::UnknownCharacter)));
    assert_eq!(lexer.next(), Some(Err(LexerError::UnknownCharacter)));
}

#[test]
fn parser_consumes_tokens() {
    let tokens = lex("int x;").unwrap();
    assert_eq!(Parser::new().parse(tokens), ParseTree);
}
