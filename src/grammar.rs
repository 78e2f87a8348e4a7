//! The lexical grammar of ucre lang, as mathematical functions on bytes.
use vstd::prelude::*;
use vstd::utf8::{
    decode_first_scalar, decode_utf8, pop_first_scalar, valid_first_scalar, valid_utf8,
};
use crate::error::UcreError;
use crate::token::Token;

verus! {

/// A set of bytes that a scan runs over.
#[derive(Debug, Clone, Copy, PartialEq, Eq, Structural)]
pub enum ByteClass {
    /// Whitespace between lexemes: tab, newline and space.
    Whitespace,
    /// `0`-`9`.
    Digit,
    /// Bytes that may continue a numeric literal: digits, `_`, `.`, `A`-`F`, `a`-`f`.
    NumberPart,
    /// Bytes that may continue an identifier: `-`, `_`, letters and digits.
    IdentPart,
    /// Every byte but the given one.
    Not(u8),
}

pub open spec fn is_digit(b: u8) -> bool {
    48 <= b <= 57
}

pub open spec fn is_letter(b: u8) -> bool {
    (65 <= b <= 90) || (97 <= b <= 122)
}

pub open spec fn in_class(b: u8, c: ByteClass) -> bool {
    match c {
        ByteClass::Whitespace => b == 9 || b == 10 || b == 32,
        ByteClass::Digit => is_digit(b),
        ByteClass::NumberPart => is_digit(b) || b == 95 || b == 46 || (65 <= b <= 70) || (97
            <= b <= 102),
        ByteClass::IdentPart => b == 45 || b == 95 || is_letter(b) || is_digit(b),
        ByteClass::Not(x) => b != x,
    }
}

/// The end of the longest run of bytes of class `c` that starts at `i`.
pub open spec fn run_end(s: Seq<u8>, i: int, c: ByteClass) -> int
    decreases s.len() - i,
{
    if 0 <= i < s.len() && in_class(s[i], c) {
        run_end(s, i + 1, c)
    } else {
        i
    }
}

/// The number of newline bytes among the first `i` bytes.
pub open spec fn newlines(s: Seq<u8>, i: int) -> nat
    decreases i,
{
    if i <= 0 {
        0
    } else {
        newlines(s, i - 1) + if s[i - 1] == 10 {
            1nat
        } else {
            0nat
        }
    }
}

/// The line, counted from 1, on which the byte at `i` stands.
pub open spec fn line_at(s: Seq<u8>, i: int) -> int {
    1 + newlines(s, i) as int
}

/// A decimal floating-point literal without sign: digits, then optionally `.`
/// and digits, then optionally `e` or `E` and at least one digit.
pub open spec fn is_decimal_literal(t: Seq<u8>) -> bool {
    let a = run_end(t, 0, ByteClass::Digit);
    let b = if a < t.len() && t[a] == 46 {
        run_end(t, a + 1, ByteClass::Digit)
    } else {
        a
    };
    let c = if b < t.len() && (t[b] == 101 || t[b] == 69) {
        run_end(t, b + 1, ByteClass::Digit)
    } else {
        b
    };
    a > 0 && c == t.len() && (c != b ==> c > b + 1)
}

/// The characters whose codes are the given bytes.
pub open spec fn ascii_text(t: Seq<u8>) -> Seq<char> {
    t.map_values(|b: u8| b as char)
}

/// Bytes below 0x80 are valid UTF-8, each decoding to the character with its code.
pub proof fn lemma_ascii_decodes(t: Seq<u8>)
    requires
        forall|k: int| 0 <= k < t.len() ==> #[trigger] t[k] < 128,
    ensures
        valid_utf8(t),
        decode_utf8(t) == ascii_text(t),
    decreases t.len(),
{
    if t.len() > 0 {
        let b = t[0];
        assert(b & 0x7f == b) by (bit_vector)
            requires
                b < 128,
        ;
        assert(valid_first_scalar(t));
        let rest = t.subrange(1, t.len() as int);
        assert(pop_first_scalar(t) == rest);
        assert forall|k: int| 0 <= k < rest.len() implies #[trigger] rest[k] < 128 by {
            assert(rest[k] == t[k + 1]);
        }
        lemma_ascii_decodes(rest);
        assert(decode_first_scalar(t) == b as u32);
        assert(decode_utf8(t) =~= ascii_text(t));
    }
}

/// The bytes from `j` up to the end of a run of class `c` that starts at
/// `j + 1` are ASCII, where the byte at `j` is.
pub proof fn lemma_run_is_ascii(s: Seq<u8>, j: int, c: ByteClass)
    requires
        0 <= j < s.len(),
        s[j] < 128,
        c == ByteClass::NumberPart || c == ByteClass::IdentPart,
    ensures
        valid_utf8(s.subrange(j, run_end(s, j + 1, c))),
        decode_utf8(s.subrange(j, run_end(s, j + 1, c))) == ascii_text(
            s.subrange(j, run_end(s, j + 1, c)),
        ),
{
    lemma_run_end(s, j + 1, c);
    let t = s.subrange(j, run_end(s, j + 1, c));
    assert forall|k: int| 0 <= k < t.len() implies #[trigger] t[k] < 128 by {
        assert(t[k] == s[j + k]);
        if k > 0 {
            assert(in_class(s[j + k], c));
        }
    }
    lemma_ascii_decodes(t);
}

/// What the scanner does at a byte that starts a lexeme.
pub enum Step {
    /// Emit the token and go on at the index.
    Emit(Token, int),
    /// Emit nothing and go on at the index.
    Skip(int),
    /// Stop with the error.
    Fail(UcreError),
}

/// The bytes `l`, `u`, `a`.
pub open spec fn lua_keyword() -> Seq<u8> {
    seq![108u8, 117u8, 97u8]
}

/// The raw-script block whose `lua` keyword ends at `e`: whitespace, `[`,
/// whitespace (dropped), then the raw text up to the first `]`.
pub open spec fn raw_block_step(s: Seq<u8>, e: int) -> Step {
    let o = run_end(s, e, ByteClass::Whitespace);
    if o >= s.len() {
        Step::Fail(UcreError::UnexpectedEndOfInput)
    } else if s[o] != 91 {
        Step::Fail(UcreError::InvalidRawBlockSyntax)
    } else {
        let k = run_end(s, o + 1, ByteClass::Whitespace);
        let q = run_end(s, k, ByteClass::Not(93));
        if q >= s.len() {
            Step::Fail(UcreError::UnexpectedEndOfInput)
        } else if !valid_utf8(s.subrange(k, q)) {
            Step::Fail(UcreError::InvalidUtf8)
        } else {
            Step::Emit(Token::Lua(decode_utf8(s.subrange(k, q))), q + 1)
        }
    }
}

/// The unknown-character error for the byte at `j`.
pub open spec fn unknown_at(s: Seq<u8>, j: int) -> UcreError {
    UcreError::UnknownCharacter { character: s[j] as char, line: line_at(s, j) as usize }
}

/// The lexeme that starts at `j`, a byte that is not whitespace.
pub open spec fn scan_step(s: Seq<u8>, j: int) -> Step {
    let b = s[j];
    if b == 123 {
        Step::Emit(Token::CurlyLeft, j + 1)
    } else if b == 125 {
        Step::Emit(Token::CurlyRight, j + 1)
    } else if b == 34 {
        let q = run_end(s, j + 1, ByteClass::Not(34));
        if q >= s.len() {
            Step::Fail(UcreError::UnterminatedString { line: line_at(s, j) as usize })
        } else if !valid_utf8(s.subrange(j + 1, q)) {
            Step::Fail(UcreError::InvalidUtf8)
        } else {
            Step::Emit(Token::String(decode_utf8(s.subrange(j + 1, q))), q + 1)
        }
    } else if b == 47 {
        if j + 1 < s.len() && s[j + 1] == 47 {
            Step::Skip(run_end(s, j + 2, ByteClass::Not(10)))
        } else {
            Step::Fail(unknown_at(s, j))
        }
    } else if is_digit(b) {
        let e = run_end(s, j + 1, ByteClass::NumberPart);
        if !is_decimal_literal(s.subrange(j, e)) {
            Step::Fail(UcreError::NumberParseFailure)
        } else {
            Step::Emit(Token::Number(ascii_text(s.subrange(j, e))), e)
        }
    } else if is_letter(b) {
        let e = run_end(s, j + 1, ByteClass::IdentPart);
        if s.subrange(j, e) == lua_keyword() {
            raw_block_step(s, e)
        } else {
            Step::Emit(Token::Ident(ascii_text(s.subrange(j, e))), e)
        }
    } else {
        Step::Fail(unknown_at(s, j))
    }
}

/// The tokens of `s` from index `i` on, or the first error met there.
pub open spec fn lex_from(s: Seq<u8>, i: int) -> Result<Seq<Token>, UcreError>
    decreases s.len() - i,
    via lex_from_decreases
{
    let j = run_end(s, i, ByteClass::Whitespace);
    if i < 0 || j >= s.len() {
        Ok(seq![Token::Eof])
    } else {
        match scan_step(s, j) {
            Step::Emit(t, k) => match lex_from(s, k) {
                Ok(ts) => Ok(seq![t] + ts),
                Err(e) => Err(e),
            },
            Step::Skip(k) => lex_from(s, k),
            Step::Fail(e) => Err(e),
        }
    }
}

/// The tokens of the whole input, or its first lexical error.
pub open spec fn lex(s: Seq<u8>) -> Result<Seq<Token>, UcreError> {
    lex_from(s, 0)
}

/// `p` put in front of the tokens of `r`; an error stays as it is.
pub open spec fn prepend(p: Seq<Token>, r: Result<Seq<Token>, UcreError>) -> Result<
    Seq<Token>,
    UcreError,
> {
    match r {
        Ok(ts) => Ok(p + ts),
        Err(e) => Err(e),
    }
}

pub proof fn lemma_run_end(s: Seq<u8>, i: int, c: ByteClass)
    requires
        0 <= i <= s.len(),
    ensures
        i <= run_end(s, i, c) <= s.len(),
        forall|k: int| i <= k < run_end(s, i, c) ==> in_class(#[trigger] s[k], c),
        run_end(s, i, c) < s.len() ==> !in_class(s[run_end(s, i, c)], c),
    decreases s.len() - i,
{
    if i < s.len() && in_class(s[i], c) {
        lemma_run_end(s, i + 1, c);
    }
}

pub proof fn lemma_scan_step_advances(s: Seq<u8>, j: int)
    requires
        0 <= j < s.len(),
    ensures
        scan_step(s, j) matches Step::Emit(_, k) ==> j < k <= s.len(),
        scan_step(s, j) matches Step::Skip(k) ==> j < k <= s.len(),
{
    if j + 1 <= s.len() {
        lemma_run_end(s, j + 1, ByteClass::Not(34));
        lemma_run_end(s, j + 1, ByteClass::NumberPart);
        lemma_run_end(s, j + 1, ByteClass::IdentPart);
        let e = run_end(s, j + 1, ByteClass::IdentPart);
        let o = run_end(s, e, ByteClass::Whitespace);
        lemma_run_end(s, e, ByteClass::Whitespace);
        if o < s.len() {
            lemma_run_end(s, o + 1, ByteClass::Whitespace);
            let k = run_end(s, o + 1, ByteClass::Whitespace);
            lemma_run_end(s, k, ByteClass::Not(93));
        }
    }
    if j + 2 <= s.len() {
        lemma_run_end(s, j + 2, ByteClass::Not(10));
    }
}

#[via_fn]
proof fn lex_from_decreases(s: Seq<u8>, i: int) {
    if 0 <= i <= s.len() {
        lemma_run_end(s, i, ByteClass::Whitespace);
        let j = run_end(s, i, ByteClass::Whitespace);
        if j < s.len() {
            lemma_scan_step_advances(s, j);
        }
    } else if i > s.len() {
        assert(run_end(s, i, ByteClass::Whitespace) == i);
    }
}

/// `ts` ends in `Eof`, and no token before the last is `Eof`.
pub open spec fn eof_exactly_last(ts: Seq<Token>) -> bool {
    &&& ts.len() >= 1
    &&& ts.last() is Eof
    &&& forall|k: int| 0 <= k < ts.len() - 1 ==> !(#[trigger] ts[k] is Eof)
}

proof fn lemma_step_emits_no_eof(s: Seq<u8>, j: int)
    requires
        0 <= j < s.len(),
    ensures
        scan_step(s, j) matches Step::Emit(t, _) ==> !(t is Eof),
{
    let b = s[j];
    if is_letter(b) && !(b == 123 || b == 125 || b == 34 || b == 47 || is_digit(b)) {
        let e = run_end(s, j + 1, ByteClass::IdentPart);
        if s.subrange(j, e) == lua_keyword() {
            assert(raw_block_step(s, e) matches Step::Emit(t, _) ==> !(t is Eof));
        }
    }
}

/// Scanning from any index within the input, when it succeeds, gives tokens
/// that end in exactly one `Eof`.
pub proof fn lemma_lex_from_eof_last(s: Seq<u8>, i: int)
    requires
        0 <= i <= s.len(),
    ensures
        lex_from(s, i) matches Ok(ts) ==> eof_exactly_last(ts),
    decreases s.len() - i,
{
    lemma_run_end(s, i, ByteClass::Whitespace);
    let j = run_end(s, i, ByteClass::Whitespace);
    if j < s.len() {
        lemma_scan_step_advances(s, j);
        lemma_step_emits_no_eof(s, j);
        match scan_step(s, j) {
            Step::Emit(t, k) => {
                lemma_lex_from_eof_last(s, k);
                if let Ok(ts) = lex_from(s, k) {
                    let all = seq![t] + ts;
                    assert forall|m: int| 0 <= m < all.len() - 1 implies !(#[trigger] all[m] is Eof) by {
                        if m > 0 {
                            assert(all[m] == ts[m - 1]);
                        }
                    }
                    assert(all.last() == ts.last());
                }
            },
            Step::Skip(k) => {
                lemma_lex_from_eof_last(s, k);
            },
            Step::Fail(_) => {},
        }
    } else {
        assert(eof_exactly_last(seq![Token::Eof]));
    }
}

/// A successful scan of any input yields a token sequence that ends in
/// exactly one `Eof`, which appears nowhere earlier.
pub proof fn lemma_lex_eof_exactly_last(s: Seq<u8>)
    ensures
        lex(s) matches Ok(ts) ==> eof_exactly_last(ts),
{
    lemma_lex_from_eof_last(s, 0);
}

} // verus!
