use vstd::prelude::*;

verus! {

/// One lexical unit of ucre lang source.
///
/// A number keeps its literal text, which is checked to be a valid decimal
/// floating-point literal; converting it to a float is left to the caller.
#[derive(Debug, PartialEq, Eq)]
pub enum TokenType {
    Ident(String),
    String(String),
    Number(String),
    Lua(String),
    CurlyLeft,
    CurlyRight,
    Eof,
}

/// The mathematical value of a token: texts as character sequences.
pub enum Token {
    Ident(Seq<char>),
    String(Seq<char>),
    Number(Seq<char>),
    Lua(Seq<char>),
    CurlyLeft,
    CurlyRight,
    Eof,
}

impl View for TokenType {
    type V = Token;

    open spec fn view(&self) -> Token {
        match self {
            TokenType::Ident(s) => Token::Ident(s@),
            TokenType::String(s) => Token::String(s@),
            TokenType::Number(s) => Token::Number(s@),
            TokenType::Lua(s) => Token::Lua(s@),
            TokenType::CurlyLeft => Token::CurlyLeft,
            TokenType::CurlyRight => Token::CurlyRight,
            TokenType::Eof => Token::Eof,
        }
    }
}

/// The views of a sequence of tokens.
pub open spec fn tokens_view(v: Seq<TokenType>) -> Seq<Token> {
    v.map_values(|t: TokenType| t@)
}

} // verus!
