//! The lexical rules as spec functions over the input bytes.
use vstd::prelude::*;
use crate::token::TokenType;

verus! {

/// The byte ' '.
pub const SPACE: u8 = 32;

/// The byte '\t'.
pub const TAB: u8 = 9;

/// The byte '\r'.
pub const CR: u8 = 13;

/// The byte '\n'.
pub const LF: u8 = 10;

/// The byte '"'.
pub const QUOTE: u8 = 34;

/// The byte '.'.
pub const DOT: u8 = 46;

/// The byte '='.
pub const EQUALS: u8 = 61;

/// The byte '!'.
pub const BANG: u8 = 33;

/// The byte '<'.
pub const LESS: u8 = 60;

/// The byte '>'.
pub const GREATER: u8 = 62;

/// The byte '+'.
pub const PLUS: u8 = 43;

/// The byte '-'.
pub const MINUS: u8 = 45;

/// The byte '*'.
pub const STAR: u8 = 42;

/// The byte '/'.
pub const SLASH: u8 = 47;

/// The byte '('.
pub const LPAREN: u8 = 40;

/// The byte ')'.
pub const RPAREN: u8 = 41;

/// The byte ':'.
pub const COLON: u8 = 58;

/// The byte ';'.
pub const SEMICOLON: u8 = 59;

/// The byte '_'.
pub const UNDERSCORE: u8 = 95;

/// The byte at `i`, or the sentinel `0` outside the input.
pub open spec fn byte_at(s: Seq<u8>, i: int) -> u8 {
    if 0 <= i < s.len() {
        s[i]
    } else {
        0u8
    }
}

pub open spec fn is_letter(c: u8) -> bool {
    (97u8 <= c && c <= 122u8) || (65u8 <= c && c <= 90u8) || c == UNDERSCORE
}

pub open spec fn is_digit(c: u8) -> bool {
    48u8 <= c && c <= 57u8
}

/// Insignificant whitespace between lexemes.
pub open spec fn is_space(c: u8) -> bool {
    c == SPACE || c == TAB || c == CR || c == LF
}

/// The whitespace allowed between the two words of `else if`.
pub open spec fn is_blank(c: u8) -> bool {
    c == SPACE || c == TAB
}

/// End of the maximal run of whitespace starting at `i`.
pub open spec fn spaces_end(s: Seq<u8>, i: int) -> int
    decreases s.len() - i,
{
    if 0 <= i < s.len() && is_space(s[i]) {
        spaces_end(s, i + 1)
    } else {
        i
    }
}

/// End of the maximal run of letters and underscores starting at `i`.
pub open spec fn letters_end(s: Seq<u8>, i: int) -> int
    decreases s.len() - i,
{
    if 0 <= i < s.len() && is_letter(s[i]) {
        letters_end(s, i + 1)
    } else {
        i
    }
}

/// End of the maximal run of decimal digits starting at `i`.
pub open spec fn digits_end(s: Seq<u8>, i: int) -> int
    decreases s.len() - i,
{
    if 0 <= i < s.len() && is_digit(s[i]) {
        digits_end(s, i + 1)
    } else {
        i
    }
}

/// End of the maximal run of spaces and tabs starting at `i`.
pub open spec fn blanks_end(s: Seq<u8>, i: int) -> int
    decreases s.len() - i,
{
    if 0 <= i < s.len() && is_blank(s[i]) {
        blanks_end(s, i + 1)
    } else {
        i
    }
}

/// The index of the first `"` at or after `i`, or the end of the input.
pub open spec fn quote_end(s: Seq<u8>, i: int) -> int
    decreases s.len() - i,
{
    if 0 <= i < s.len() && s[i] != QUOTE {
        quote_end(s, i + 1)
    } else {
        i
    }
}

/// The bytes of `let`.
pub open spec fn kw_let() -> Seq<u8> {
    seq![108u8, 101u8, 116u8]
}

/// The bytes of `fun`.
pub open spec fn kw_fun() -> Seq<u8> {
    seq![102u8, 117u8, 110u8]
}

/// The bytes of `if`.
pub open spec fn kw_if() -> Seq<u8> {
    seq![105u8, 102u8]
}

/// The bytes of `else`.
pub open spec fn kw_else() -> Seq<u8> {
    seq![101u8, 108u8, 115u8, 101u8]
}

/// The keyword table: a word's kind, `Ident` for any word that is no keyword.
pub open spec fn keyword_kind(w: Seq<u8>) -> TokenType {
    if w == kw_let() {
        TokenType::Let
    } else if w == kw_fun() {
        TokenType::Fun
    } else if w == kw_if() {
        TokenType::If
    } else if w == kw_else() {
        TokenType::Else
    } else {
        TokenType::Ident
    }
}

/// One recognised lexeme: its kind, the span of its literal, and where the
/// cursor stands after it.
pub struct Lexeme {
    pub kind: TokenType,
    pub start: int,
    pub end: int,
    pub next: int,
}

pub open spec fn span(kind: TokenType, start: int, end: int) -> Lexeme {
    Lexeme { kind, start, end, next: end }
}

/// Whether the word ending at `e` is followed by blanks and then exactly the word `if`.
pub open spec fn else_if_follows(s: Seq<u8>, e: int) -> bool {
    is_blank(byte_at(s, e)) && s.subrange(blanks_end(s, e), letters_end(s, blanks_end(s, e)))
        == kw_if()
}

/// An identifier or keyword starting at `i`.
pub open spec fn word_lexeme(s: Seq<u8>, i: int) -> Lexeme {
    let e = letters_end(s, i);
    let w = s.subrange(i, e);
    if w == kw_else() && else_if_follows(s, e) {
        span(TokenType::ElseIf, i, letters_end(s, blanks_end(s, e)))
    } else {
        span(keyword_kind(w), i, e)
    }
}

/// An integer or floating-point numeral starting at `i`.
pub open spec fn number_lexeme(s: Seq<u8>, i: int) -> Lexeme {
    let e = digits_end(s, i);
    if byte_at(s, e) == DOT && is_digit(byte_at(s, e + 1)) {
        span(TokenType::Float, i, digits_end(s, e + 1))
    } else {
        span(TokenType::Int, i, e)
    }
}

/// A string literal whose opening quote stands at `i`.
pub open spec fn string_lexeme(s: Seq<u8>, i: int) -> Lexeme {
    let q = quote_end(s, i + 1);
    if q < s.len() {
        Lexeme { kind: TokenType::String, start: i + 1, end: q, next: q + 1 }
    } else {
        span(TokenType::Illegal, i + 1, q)
    }
}

/// The kind of a one-byte punctuation mark; `Illegal` for any other byte.
pub open spec fn single_kind(c: u8) -> TokenType {
    if c == PLUS {
        TokenType::Plus
    } else if c == MINUS {
        TokenType::Minus
    } else if c == STAR {
        TokenType::Star
    } else if c == SLASH {
        TokenType::Slash
    } else if c == LPAREN {
        TokenType::LParen
    } else if c == RPAREN {
        TokenType::RParen
    } else if c == COLON {
        TokenType::Colon
    } else if c == SEMICOLON {
        TokenType::Semicolon
    } else if c == LESS {
        TokenType::Lt
    } else if c == GREATER {
        TokenType::Gt
    } else {
        TokenType::Illegal
    }
}

/// An operator, punctuation mark or stray byte at `i`.
pub open spec fn operator_lexeme(s: Seq<u8>, i: int) -> Lexeme {
    let c = byte_at(s, i);
    let eq_follows = byte_at(s, i + 1) == EQUALS;
    if c == LESS && eq_follows {
        span(TokenType::LtEq, i, i + 2)
    } else if c == GREATER && eq_follows {
        span(TokenType::GtEq, i, i + 2)
    } else if c == EQUALS && eq_follows {
        span(TokenType::Eq, i, i + 2)
    } else if c == BANG && eq_follows {
        span(TokenType::BangEq, i, i + 2)
    } else {
        span(single_kind(c), i, i + 1)
    }
}

/// The lexeme that starts at `i`, where no whitespace stands.
pub open spec fn lexeme_at(s: Seq<u8>, i: int) -> Lexeme {
    let c = byte_at(s, i);
    if c == 0 {
        span(TokenType::Eof, i, i)
    } else if is_letter(c) {
        word_lexeme(s, i)
    } else if is_digit(c) {
        number_lexeme(s, i)
    } else if c == QUOTE {
        string_lexeme(s, i)
    } else {
        operator_lexeme(s, i)
    }
}

/// The lexeme that a scan from cursor `p` recognises, after skipping whitespace.
pub open spec fn scan(s: Seq<u8>, p: int) -> Lexeme {
    lexeme_at(s, spaces_end(s, p))
}

/// The kind of the token that a scan from `p` emits.
pub open spec fn kind_at(s: Seq<u8>, p: int) -> TokenType {
    scan(s, p).kind
}

/// The literal of the token that a scan from `p` emits: empty for `Eof`.
pub open spec fn literal_at(s: Seq<u8>, p: int) -> Seq<u8> {
    if scan(s, p).kind == TokenType::Eof {
        Seq::empty()
    } else {
        s.subrange(scan(s, p).start, scan(s, p).end)
    }
}

/// The cursor after a scan from `p`.
pub open spec fn step(s: Seq<u8>, p: int) -> int {
    scan(s, p).next
}

/// The cursor after `n` scans from `p`.
pub open spec fn position_after(s: Seq<u8>, p: int, n: nat) -> int
    decreases n,
{
    if n == 0 {
        p
    } else {
        position_after(s, step(s, p), (n - 1) as nat)
    }
}

/// The number of line-feed bytes in `s`.
pub open spec fn newlines(s: Seq<u8>) -> nat
    decreases s.len(),
{
    if s.len() == 0 {
        0
    } else {
        newlines(s.drop_last()) + if s.last() == LF {
            1nat
        } else {
            0nat
        }
    }
}

/// The line on which the cursor `p` stands: one plus the line feeds before it
/// (all of them, once the cursor has passed the end of the input).
pub open spec fn line_at(s: Seq<u8>, p: int) -> nat {
    if p <= s.len() {
        1 + newlines(s.subrange(0, p))
    } else {
        1 + newlines(s)
    }
}

} // verus!
