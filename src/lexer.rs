//! The scanner that turns ucre lang source bytes into tokens.
use vstd::prelude::*;
use vstd::utf8::{decode_utf8, valid_utf8};
use crate::error::UcreError;
use crate::grammar::{
    ByteClass, Step, eof_exactly_last, in_class, is_decimal_literal, is_letter,
    lemma_lex_from_eof_last, lemma_run_end, lemma_run_is_ascii, lemma_scan_step_advances,
    lex_from, line_at, lua_keyword, prepend, raw_block_step, run_end, scan_step,
};
use crate::token::{Token, TokenType, tokens_view};

verus! {

/// Relies on `String::from_utf8`: it succeeds exactly on valid UTF-8, and the
/// string then holds the decoded characters.
#[verifier::external_body]
fn string_from_utf8(b: &[u8]) -> (r: Option<String>)
    ensures
        r is Some <==> valid_utf8(b@),
        r matches Some(t) ==> t@ == decode_utf8(b@),
{
    String::from_utf8(b.to_vec()).ok()
}

fn in_class_exec(b: u8, c: ByteClass) -> (r: bool)
    ensures
        r == in_class(b, c),
{
    match c {
        ByteClass::Whitespace => b == 9 || b == 10 || b == 32,
        ByteClass::Digit => 48 <= b && b <= 57,
        ByteClass::NumberPart => (48 <= b && b <= 57) || b == 95 || b == 46 || (65 <= b && b
            <= 70) || (97 <= b && b <= 102),
        ByteClass::IdentPart => b == 45 || b == 95 || (65 <= b && b <= 90) || (97 <= b && b
            <= 122) || (48 <= b && b <= 57),
        ByteClass::Not(x) => b != x,
    }
}

/// The end of the longest run of bytes of class `c` in `s` that starts at `i`.
pub fn run_end_exec(s: &[u8], i: usize, c: ByteClass) -> (r: usize)
    requires
        i <= s@.len(),
    ensures
        r == run_end(s@, i as int, c),
{
    let mut k = i;
    while k < s.len() && in_class_exec(s[k], c)
        invariant
            i <= k <= s@.len(),
            run_end(s@, k as int, c) == run_end(s@, i as int, c),
        decreases s@.len() - k,
    {
        k = k + 1;
    }
    k
}

/// Whether `t` is a decimal floating-point literal without sign.
pub fn is_decimal_literal_exec(t: &[u8]) -> (r: bool)
    ensures
        r == is_decimal_literal(t@),
{
    proof {
        lemma_run_end(t@, 0, ByteClass::Digit);
    }
    let a = run_end_exec(t, 0, ByteClass::Digit);
    let b = if a < t.len() && t[a] == 46 {
        proof {
            lemma_run_end(t@, a + 1, ByteClass::Digit);
        }
        run_end_exec(t, a + 1, ByteClass::Digit)
    } else {
        a
    };
    let c = if b < t.len() && (t[b] == 101 || t[b] == 69) {
        proof {
            lemma_run_end(t@, b + 1, ByteClass::Digit);
        }
        run_end_exec(t, b + 1, ByteClass::Digit)
    } else {
        b
    };
    a > 0 && c == t.len() && (c == b || c - b > 1)
}

/// `r` and the new position `k` are what the step `st` calls for.
pub open spec fn step_done(st: Step, r: Result<TokenType, UcreError>, k: int) -> bool {
    match st {
        Step::Emit(t, e) => r matches Ok(tt) && tt@ == t && k == e,
        Step::Fail(e) => r == Err::<TokenType, UcreError>(e),
        Step::Skip(_) => false,
    }
}

/// A single-use scanner over a byte slice.
pub struct Lexer<'lexer> {
    source: &'lexer [u8],
    pos: usize,
    line: usize,
}

impl<'lexer> Lexer<'lexer> {
    /// The bytes being scanned.
    pub closed spec fn input(&self) -> Seq<u8> {
        self.source@
    }

    /// The index of the next byte to scan.
    pub closed spec fn position(&self) -> int {
        self.pos as int
    }

    /// The position lies within the input, and the line counter is the line
    /// of the byte at the position.
    pub closed spec fn wf(&self) -> bool {
        &&& self.pos <= self.source@.len() < usize::MAX
        &&& self.line == line_at(self.source@, self.pos as int)
        &&& self.line <= self.pos + 1
    }

    pub fn new(i: &'lexer [u8]) -> (l: Self)
        requires
            i@.len() < usize::MAX,
        ensures
            l.wf(),
            l.input() == i@,
            l.position() == 0,
    {
        Lexer { source: i, pos: 0, line: 1 }
    }

    fn is_eof(&self) -> (r: bool)
        ensures
            r == (self.pos >= self.source@.len()),
    {
        self.pos >= self.source.len()
    }

    /// The byte at the position, or `UnexpectedEndOfInput` past the end.
    fn cur(&self) -> (r: Result<u8, UcreError>)
        ensures
            self.pos < self.source@.len() ==> r == Ok::<u8, UcreError>(
                self.source@[self.pos as int],
            ),
            self.pos >= self.source@.len() ==> r == Err::<u8, UcreError>(
                UcreError::UnexpectedEndOfInput,
            ),
    {
        if self.pos < self.source.len() {
            Ok(self.source[self.pos])
        } else {
            Err(UcreError::UnexpectedEndOfInput)
        }
    }

    /// Whether the byte at the position is of class `c`.
    fn at_class(&self, c: ByteClass) -> (r: bool)
        ensures
            r == (self.pos < self.source@.len() && in_class(self.source@[self.pos as int], c)),
    {
        match self.cur() {
            Ok(b) => in_class_exec(b, c),
            Err(_) => false,
        }
    }

    fn next(&self) -> (r: Result<u8, UcreError>)
        requires
            self.wf(),
        ensures
            self.pos + 1 < self.source@.len() ==> r == Ok::<u8, UcreError>(
                self.source@[self.pos + 1],
            ),
            self.pos + 1 >= self.source@.len() ==> r == Err::<u8, UcreError>(
                UcreError::UnexpectedEndOfInput,
            ),
    {
        if self.pos + 1 < self.source.len() {
            Ok(self.source[self.pos + 1])
        } else {
            Err(UcreError::UnexpectedEndOfInput)
        }
    }

    fn advance(&mut self)
        requires
            old(self).wf(),
            old(self).pos < old(self).source@.len(),
        ensures
            final(self).wf(),
            final(self).source == old(self).source,
            final(self).pos == old(self).pos + 1,
    {
        if self.source[self.pos] == 10 {
            self.line = self.line + 1;
        }
        self.pos = self.pos + 1;
    }

    /// Moves past the longest run of bytes of class `c`.
    fn scan(&mut self, c: ByteClass)
        requires
            old(self).wf(),
        ensures
            final(self).wf(),
            final(self).source == old(self).source,
            final(self).pos == run_end(old(self).source@, old(self).pos as int, c),
    {
        while self.at_class(c)
            invariant
                self.wf(),
                self.source == old(self).source,
                old(self).pos <= self.pos,
                run_end(self.source@, self.pos as int, c) == run_end(
                    self.source@,
                    old(self).pos as int,
                    c,
                ),
            decreases self.source@.len() - self.pos,
        {
            self.advance();
        }
    }

    /// A string literal; the position is at its opening quote.
    fn string_literal(&mut self) -> (r: Result<TokenType, UcreError>)
        requires
            old(self).wf(),
            old(self).pos < old(self).source@.len(),
            old(self).source@[old(self).pos as int] == 34,
        ensures
            final(self).wf(),
            final(self).source == old(self).source,
            step_done(scan_step(old(self).source@, old(self).pos as int), r, final(self).pos as int),
    {
        let line = self.line;
        self.advance();
        let start = self.pos;
        self.scan(ByteClass::Not(34));
        proof {
            lemma_run_end(self.source@, start as int, ByteClass::Not(34));
        }
        if self.is_eof() {
            return Err(UcreError::UnterminatedString { line });
        }
        match string_from_utf8(&self.source[start..self.pos]) {
            None => Err(UcreError::InvalidUtf8),
            Some(t) => {
                self.advance();
                Ok(TokenType::String(t))
            },
        }
    }

    /// A numeric literal; the position is at its first digit.
    fn number(&mut self) -> (r: Result<TokenType, UcreError>)
        requires
            old(self).wf(),
            old(self).pos < old(self).source@.len(),
            48 <= old(self).source@[old(self).pos as int] <= 57,
        ensures
            final(self).wf(),
            final(self).source == old(self).source,
            step_done(scan_step(old(self).source@, old(self).pos as int), r, final(self).pos as int),
    {
        let start = self.pos;
        self.advance();
        self.scan(ByteClass::NumberPart);
        proof {
            lemma_run_end(self.source@, start as int, ByteClass::NumberPart);
            lemma_run_is_ascii(self.source@, start as int, ByteClass::NumberPart);
        }
        let bytes = &self.source[start..self.pos];
        if is_decimal_literal_exec(bytes) {
            // the literal is ASCII, so it always converts
            Ok(TokenType::Number(string_from_utf8(bytes).unwrap()))
        } else {
            Err(UcreError::NumberParseFailure)
        }
    }

    /// The rest of a raw-script block; the position is just past `lua`.
    fn raw_block(&mut self) -> (r: Result<TokenType, UcreError>)
        requires
            old(self).wf(),
        ensures
            final(self).wf(),
            final(self).source == old(self).source,
            step_done(raw_block_step(old(self).source@, old(self).pos as int), r, final(self).pos as int),
    {
        self.skip_whitespace();
        match self.cur() {
            Err(e) => return Err(e),
            Ok(b) => {
                if b != 91 {
                    return Err(UcreError::InvalidRawBlockSyntax);
                }
            },
        }
        self.advance();
        self.skip_whitespace();
        let start = self.pos;
        self.scan(ByteClass::Not(93));
        proof {
            lemma_run_end(self.source@, start as int, ByteClass::Not(93));
        }
        if self.is_eof() {
            return Err(UcreError::UnexpectedEndOfInput);
        }
        match string_from_utf8(&self.source[start..self.pos]) {
            None => Err(UcreError::InvalidUtf8),
            Some(t) => {
                self.advance();
                Ok(TokenType::Lua(t))
            },
        }
    }

    /// An identifier, or a raw-script block where the identifier is `lua`;
    /// the position is at its first letter.
    fn identifier(&mut self) -> (r: Result<TokenType, UcreError>)
        requires
            old(self).wf(),
            old(self).pos < old(self).source@.len(),
            is_letter(old(self).source@[old(self).pos as int]),
        ensures
            final(self).wf(),
            final(self).source == old(self).source,
            step_done(scan_step(old(self).source@, old(self).pos as int), r, final(self).pos as int),
    {
        let start = self.pos;
        self.advance();
        self.scan(ByteClass::IdentPart);
        proof {
            lemma_run_end(self.source@, start as int, ByteClass::IdentPart);
            lemma_run_is_ascii(self.source@, start as int, ByteClass::IdentPart);
        }
        let bytes = &self.source[start..self.pos];
        if bytes.len() == 3 && bytes[0] == 108 && bytes[1] == 117 && bytes[2] == 97 {
            proof {
                assert(bytes@ =~= lua_keyword());
            }
            self.raw_block()
        } else {
            proof {
                assert(bytes@ != lua_keyword()) by {
                    if bytes@ == lua_keyword() {
                        assert(bytes@[0] == lua_keyword()[0]);
                        assert(bytes@[1] == lua_keyword()[1]);
                        assert(bytes@[2] == lua_keyword()[2]);
                    }
                }
            }
            // the identifier is ASCII, so it always converts
            Ok(TokenType::Ident(string_from_utf8(bytes).unwrap()))
        }
    }

    /// Scans the input from the position to its end. The result is the token
    /// sequence that the grammar gives for the input from the starting
    /// position, ending in `Eof`, or the first error that it meets.
    pub fn run(&mut self) -> (r: Result<Vec<TokenType>, UcreError>)
        requires
            old(self).wf(),
        ensures
            final(self).wf(),
            final(self).input() == old(self).input(),
            lex_from(old(self).input(), old(self).position()) == match r {
                Ok(v) => Ok(tokens_view(v@)),
                Err(e) => Err(e),
            },
            r matches Ok(v) ==> eof_exactly_last(tokens_view(v@)),
    {
        let mut r: Vec<TokenType> = Vec::new();
        loop
            invariant
                self.wf(),
                self.source == old(self).source,
                old(self).pos <= old(self).source@.len(),
                lex_from(old(self).source@, old(self).pos as int) == prepend(
                    tokens_view(r@),
                    lex_from(self.source@, self.pos as int),
                ),
            decreases self.source@.len() - self.pos,
        {
            let ghost s = self.source@;
            let ghost i = self.pos as int;
            let ghost before = r@;
            self.skip_whitespace();
            proof {
                lemma_run_end(s, i, ByteClass::Whitespace);
            }
            if self.is_eof() {
                r.push(TokenType::Eof);
                proof {
                    assert(tokens_view(r@) =~= tokens_view(before) + seq![Token::Eof]);
                    assert(lex_from(old(self).source@, old(self).pos as int) == Ok::<
                        Seq<Token>,
                        UcreError,
                    >(tokens_view(r@)));
                    lemma_lex_from_eof_last(old(self).source@, old(self).pos as int);
                }
                return Ok(r);
            }
            let ghost j = self.pos as int;
            proof {
                lemma_scan_step_advances(s, j);
            }
            let b = match self.cur() {
                Ok(b) => b,
                Err(e) => return Err(e),
            };
            let t = if b == 123 {
                self.advance();
                TokenType::CurlyLeft
            } else if b == 125 {
                self.advance();
                TokenType::CurlyRight
            } else if b == 34 {
                match self.string_literal() {
                    Ok(t) => t,
                    Err(e) => return Err(e),
                }
            } else if b == 47 {
                match self.next() {
                    Ok(47) => {},
                    _ => {
                        return Err(
                            UcreError::UnknownCharacter { character: b as char, line: self.line },
                        );
                    },
                }
                self.advance();
                self.advance();
                self.scan(ByteClass::Not(10));
                continue ;
            } else if 48 <= b && b <= 57 {
                match self.number() {
                    Ok(t) => t,
                    Err(e) => return Err(e),
                }
            } else if (65 <= b && b <= 90) || (97 <= b && b <= 122) {
                match self.identifier() {
                    Ok(t) => t,
                    Err(e) => return Err(e),
                }
            } else {
                return Err(UcreError::UnknownCharacter { character: b as char, line: self.line });
            };
            r.push(t);
            proof {
                let ghost ts = lex_from(s, self.pos as int);
                assert(tokens_view(r@) =~= tokens_view(before).push(t@));
                if let Ok(rest) = ts {
                    assert(tokens_view(before) + (seq![t@] + rest) =~= tokens_view(r@) + rest);
                }
            }
        }
    }

    fn skip_whitespace(&mut self)
        requires
            old(self).wf(),
        ensures
            final(self).wf(),
            final(self).source == old(self).source,
            final(self).pos == run_end(old(self).source@, old(self).pos as int, ByteClass::Whitespace),
    {
        self.scan(ByteClass::Whitespace);
    }
}

} // verus!
