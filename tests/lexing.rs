use langparse::common::error::{Error, ErrorKind};
use langparse::common::source::Source;
use langparse::common::span::Span;
use langparse::lexer::cursor::{utf8_slice, Cursor};
use langparse::lexer::token::{Token, TokenKind};
use langparse::lexer::Lexer;

fn source(code: &str) -> Source {
    Source { code: code.to_string(), path: "test.lang".to_string() }
}

fn lex(code: &str) -> (Vec<Token>, Option<Box<Error>>) {
    let mut lexer = Lexer::new(source(code));
    lexer.tokenize()
}

fn kinds(code: &str) -> Vec<TokenKind> {
    let (tokens, failure) = lex(code);
    assert!(failure.is_none());
    tokens.iter().map(|t| t.kind).collect()
}

fn single_token(code: &str) -> (TokenKind, Span, String) {
    let (tokens, failure) = lex(code);
    assert!(failure.is_none());
    assert_eq!(tokens.len(), 1);
    (tokens[0].kind, tokens[0].chunk.span, tokens[0].chunk.data.clone())
}

#[test]
fn whitespace_only_yields_nothing() {
    for code in ["", " ", "\t", "\n", "  \t\n  \n\t "] {
        let (tokens, failure) = lex(code);
        assert!(tokens.is_empty());
        assert!(failure.is_none());
    }
}

#[test]
fn integer_literal() {
    assert_eq!(single_token("123"), (TokenKind::Integer, Span::new(0, 3), "123".to_string()));
    assert_eq!(single_token("  7 "), (TokenKind::Integer, Span::new(2, 3), "7".to_string()));
}

#[test]
fn float_literal() {
    assert_eq!(single_token("1.5"), (TokenKind::Float, Span::new(0, 3), "1.5".to_string()));
    assert_eq!(single_token("10."), (TokenKind::Float, Span::new(0, 3), "10.".to_string()));
}

#[test]
fn two_dots_are_an_unexpected_character() {
    let (tokens, failure) = lex("1.2.3");
    assert!(tokens.is_empty());
    let error = failure.expect("a failure");
    assert!(matches!(error.kind, ErrorKind::UnexpectedCharacter));
    assert_eq!(error.span, Span::new(0, 5));
    assert_eq!(error.source.code, "1.2.3");
}

#[test]
fn failure_ends_the_token_list() {
    let (tokens, failure) = lex("a 1..2 b");
    assert_eq!(tokens.len(), 1);
    assert_eq!(tokens[0].kind, TokenKind::Identifier);
    let error = failure.expect("a failure");
    assert!(matches!(error.kind, ErrorKind::UnexpectedCharacter));
    assert_eq!(error.span, Span::new(2, 6));
}

#[test]
fn equal_and_assignment() {
    assert_eq!(single_token("=="), (TokenKind::Equal, Span::new(0, 2), "==".to_string()));
    assert_eq!(single_token("="), (TokenKind::Assignment, Span::new(0, 1), "=".to_string()));
}

#[test]
fn comparison_operators() {
    assert_eq!(single_token("<"), (TokenKind::LessThen, Span::new(0, 1), "<".to_string()));
    assert_eq!(single_token("<="), (TokenKind::LessThenEqual, Span::new(0, 2), "<=".to_string()));
    assert_eq!(single_token(">"), (TokenKind::GreaterThen, Span::new(0, 1), ">".to_string()));
    assert_eq!(
        single_token(">="),
        (TokenKind::GreaterThenEqual, Span::new(0, 2), ">=".to_string())
    );
}

#[test]
fn minus_and_arrow() {
    assert_eq!(single_token("-"), (TokenKind::Minus, Span::new(0, 1), "-".to_string()));
    assert_eq!(single_token("->"), (TokenKind::Arrow, Span::new(0, 2), "->".to_string()));
    assert_eq!(kinds("- >"), vec![TokenKind::Minus, TokenKind::GreaterThen]);
    assert_eq!(kinds("= ="), vec![TokenKind::Assignment, TokenKind::Assignment]);
}

#[test]
fn punctuation_marks() {
    assert_eq!(
        kinds("+*/:;(){},"),
        vec![
            TokenKind::Plus,
            TokenKind::Multiply,
            TokenKind::Divide,
            TokenKind::Colon,
            TokenKind::Semicolon,
            TokenKind::LeftParenthesis,
            TokenKind::RightParenthesis,
            TokenKind::LeftCurlyBrace,
            TokenKind::RightCurlyBrace,
            TokenKind::Comma,
        ]
    );
}

#[test]
fn keywords_and_identifiers() {
    assert_eq!(
        kinds("if else while let mut function return iff functions x_1"),
        vec![
            TokenKind::If,
            TokenKind::Else,
            TokenKind::While,
            TokenKind::Let,
            TokenKind::Mut,
            TokenKind::Function,
            TokenKind::Return,
            TokenKind::Identifier,
            TokenKind::Identifier,
            TokenKind::Identifier,
        ]
    );
}

#[test]
fn spans_count_characters_not_bytes() {
    let (tokens, failure) = lex("héllo = wörld");
    assert!(failure.is_none());
    assert_eq!(tokens.len(), 3);
    assert_eq!(tokens[0].kind, TokenKind::Identifier);
    assert_eq!(tokens[0].chunk.span, Span::new(0, 5));
    assert_eq!(tokens[0].chunk.data, "héllo");
    assert_eq!(tokens[1].chunk.span, Span::new(6, 7));
    assert_eq!(tokens[2].chunk.span, Span::new(8, 13));
    assert_eq!(tokens[2].chunk.data, "wörld");
}

#[test]
fn non_ascii_identifier_start() {
    assert_eq!(single_token("λx"), (TokenKind::Identifier, Span::new(0, 2), "λx".to_string()));
}

#[test]
fn underscore_cannot_start_a_token() {
    let (tokens, failure) = lex("_x");
    assert!(tokens.is_empty());
    let error = failure.expect("a failure");
    assert!(matches!(error.kind, ErrorKind::UnexpectedEndOfInput));
    assert_eq!(error.span, Span::new(0, 0));
}

#[test]
fn unknown_character_is_reported_at_its_position() {
    let (tokens, failure) = lex("a # b");
    assert_eq!(tokens.len(), 1);
    let error = failure.expect("a failure");
    assert!(matches!(error.kind, ErrorKind::UnexpectedEndOfInput));
    assert_eq!(error.span, Span::new(2, 2));
}

#[test]
fn lexer_next_steps_one_item_at_a_time() {
    let mut lexer = Lexer::new(source(" a 1"));
    let first = lexer.next().expect("an item").expect("a token");
    assert_eq!(first.kind, TokenKind::Identifier);
    assert_eq!(first.chunk.span, Span::new(1, 2));
    let second = lexer.next().expect("an item").expect("a token");
    assert_eq!(second.kind, TokenKind::Integer);
    assert!(lexer.next().is_none());
}

#[test]
fn span_slice_uses_character_offsets() {
    let text = "héllo wörld";
    assert_eq!(Span::new(6, 11).slice(text), "wörld");
    assert_eq!(Span::new(0, 2).slice(text), "hé");
    assert_eq!(utf8_slice(text, 1, 4), "éll");
    assert_eq!(utf8_slice(text, 3, 3), "");
}

#[test]
fn character_cursor_operations() {
    let mut cursor = Cursor::new(source("ab=c"));
    assert!(!cursor.eof());
    assert_eq!(cursor.peek(), 'a');
    assert_eq!(cursor.lookup(2), Some('='));
    assert_eq!(cursor.lookup(4), None);
    cursor.next();
    cursor.next();
    assert_eq!(cursor.span(), Span::new(0, 2));
    let chunk = cursor.chunk();
    assert_eq!(chunk.data, "ab");
    assert_eq!(chunk.span, Span::new(0, 2));
    assert_eq!(cursor.span(), Span::new(2, 2));
    cursor.next();
    cursor.clear();
    assert_eq!(cursor.span(), Span::new(3, 3));
    cursor.next();
    assert!(cursor.eof());
}
