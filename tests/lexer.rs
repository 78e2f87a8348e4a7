use ucre::error::UcreError;
use ucre::lexer::{is_decimal_literal_exec, run_end_exec, Lexer};
use ucre::grammar::ByteClass;
use ucre::token::TokenType;

fn lex(src: &str) -> Result<Vec<TokenType>, UcreError> {
    let mut l = Lexer::new(src.as_bytes());
    l.run()
}

fn s(t: &str) -> String {
    t.to_string()
}

#[test]
fn string_literal_and_empty_string() {
    assert_eq!(lex("\"abc\""), Ok(vec![TokenType::String(s("abc")), TokenType::Eof]));
    assert_eq!(lex("\"\""), Ok(vec![TokenType::String(s("")), TokenType::Eof]));
}

#[test]
fn unterminated_string() {
    assert_eq!(lex("\"abc"), Err(UcreError::UnterminatedString { line: 1 }));
    assert_eq!(lex("\n\n  \"abc"), Err(UcreError::UnterminatedString { line: 3 }));
}

#[test]
fn braces() {
    assert_eq!(lex("{}"), Ok(vec![TokenType::CurlyLeft, TokenType::CurlyRight, TokenType::Eof]));
}

#[test]
fn line_comment_is_discarded() {
    assert_eq!(lex("// note\nfoo"), Ok(vec![TokenType::Ident(s("foo")), TokenType::Eof]));
    assert_eq!(lex("// only a comment"), Ok(vec![TokenType::Eof]));
}

#[test]
fn raw_block_keeps_trailing_whitespace() {
    assert_eq!(lex("lua [ print(1) ]"), Ok(vec![TokenType::Lua(s("print(1) ")), TokenType::Eof]));
    assert_eq!(lex("lua[]"), Ok(vec![TokenType::Lua(s("")), TokenType::Eof]));
}

#[test]
fn number_and_identifier() {
    let r = lex("3.14").unwrap();
    assert_eq!(r.len(), 2);
    match &r[0] {
        TokenType::Number(t) => assert_eq!(t.parse::<f64>().unwrap(), 3.14),
        other => panic!("expected a number, got {:?}", other),
    }
    assert_eq!(r[1], TokenType::Eof);
    assert_eq!(lex("heading"), Ok(vec![TokenType::Ident(s("heading")), TokenType::Eof]));
}

#[test]
fn unknown_character() {
    assert_eq!(lex("$"), Err(UcreError::UnknownCharacter { character: '$', line: 1 }));
    assert_eq!(lex("a\nb\n $"), Err(UcreError::UnknownCharacter { character: '$', line: 3 }));
    assert_eq!(lex("/x"), Err(UcreError::UnknownCharacter { character: '/', line: 1 }));
}

#[test]
fn empty_and_whitespace_input() {
    assert_eq!(lex(""), Ok(vec![TokenType::Eof]));
    assert_eq!(lex(" \t\n "), Ok(vec![TokenType::Eof]));
}

#[test]
fn tokens_next_to_each_other() {
    assert_eq!(
        lex("heading{text \"Hi\" 12}"),
        Ok(vec![
            TokenType::Ident(s("heading")),
            TokenType::CurlyLeft,
            TokenType::Ident(s("text")),
            TokenType::String(s("Hi")),
            TokenType::Number(s("12")),
            TokenType::CurlyRight,
            TokenType::Eof,
        ])
    );
    assert_eq!(
        lex("my-node_2 luax"),
        Ok(vec![TokenType::Ident(s("my-node_2")), TokenType::Ident(s("luax")), TokenType::Eof])
    );
}

#[test]
fn number_forms() {
    assert_eq!(lex("1e5"), Ok(vec![TokenType::Number(s("1e5")), TokenType::Eof]));
    assert_eq!(lex("7."), Ok(vec![TokenType::Number(s("7.")), TokenType::Eof]));
    assert_eq!(lex("1a"), Err(UcreError::NumberParseFailure));
    assert_eq!(lex("1_000"), Err(UcreError::NumberParseFailure));
    assert_eq!(lex("1e"), Err(UcreError::NumberParseFailure));
    assert_eq!(lex("1.2.3"), Err(UcreError::NumberParseFailure));
}

#[test]
fn decimal_literal_check() {
    assert!(is_decimal_literal_exec(b"0"));
    assert!(is_decimal_literal_exec(b"12.50E3"));
    assert!(!is_decimal_literal_exec(b""));
    assert!(!is_decimal_literal_exec(b"ff"));
    assert!(!is_decimal_literal_exec(b"1.e"));
}

#[test]
fn run_end_of_classes() {
    assert_eq!(run_end_exec(b"  \tx", 0, ByteClass::Whitespace), 3);
    assert_eq!(run_end_exec(b"abc]d", 1, ByteClass::Not(b']')), 3);
    assert_eq!(run_end_exec(b"ab-c d", 0, ByteClass::IdentPart), 4);
}

#[test]
fn invalid_utf8_in_string() {
    let bytes = [b'"', 0xff, b'"'];
    let mut l = Lexer::new(&bytes);
    assert_eq!(l.run(), Err(UcreError::InvalidUtf8));
    let ok = "\"héllo\"";
    assert_eq!(lex(ok), Ok(vec![TokenType::String(s("héllo")), TokenType::Eof]));
}

#[test]
fn raw_block_errors() {
    assert_eq!(lex("lua x"), Err(UcreError::InvalidRawBlockSyntax));
    assert_eq!(lex("lua"), Err(UcreError::UnexpectedEndOfInput));
    assert_eq!(lex("lua [ abc"), Err(UcreError::UnexpectedEndOfInput));
}

#[test]
fn lone_slash_at_end() {
    assert_eq!(lex("/"), Err(UcreError::UnknownCharacter { character: '/', line: 1 }));
    assert_eq!(lex("a\n/"), Err(UcreError::UnknownCharacter { character: '/', line: 2 }));
}

#[test]
fn successful_scan_has_one_final_eof() {
    for src in ["", "a b c", "{ \"x\" }", "lua [x] // c\n 1.5"] {
        let r = lex(src).unwrap();
        assert_eq!(r.last(), Some(&TokenType::Eof));
        assert_eq!(r.iter().filter(|t| **t == TokenType::Eof).count(), 1);
    }
}

#[test]
fn only_space_tab_and_newline_are_whitespace() {
    assert_eq!(lex("\r"), Err(UcreError::UnknownCharacter { character: '\r', line: 1 }));
    assert_eq!(lex("a\r\n"), Err(UcreError::UnknownCharacter { character: '\r', line: 1 }));
    assert_eq!(lex("\x0b"), Err(UcreError::UnknownCharacter { character: '\x0b', line: 1 }));
    let nbsp = [0xa0u8];
    let mut l = Lexer::new(&nbsp);
    assert_eq!(l.run(), Err(UcreError::UnknownCharacter { character: '\u{a0}', line: 1 }));
    assert_eq!(lex(" \t\n{\n}"), Ok(vec![TokenType::CurlyLeft, TokenType::CurlyRight, TokenType::Eof]));
}
