//! The scanner: a cursor over the input bytes that emits one token per call.
use vstd::prelude::*;
use vstd::slice::{slice_subrange, slice_to_vec};
use vstd::utf8::encode_utf8;
use crate::lexeme::{
    blanks_end, byte_at, digits_end, else_if_follows, is_blank, is_digit, is_letter, is_space,
    keyword_kind, kind_at, kw_else, kw_fun, kw_if, kw_let, letters_end, line_at, literal_at,
    newlines, number_lexeme, operator_lexeme, quote_end, single_kind, spaces_end, step,
    string_lexeme, word_lexeme, BANG, COLON, CR, DOT, EQUALS, GREATER, LESS, LF, LPAREN, MINUS,
    PLUS, QUOTE, RPAREN, SEMICOLON, SLASH, SPACE, STAR, TAB, UNDERSCORE,
};
use crate::token::{Token, TokenType};

verus! {

/// What a scanner holds, as mathematical values: the input bytes and the cursor.
pub struct LexerView {
    pub input: Seq<u8>,
    pub position: int,
}

/// A scanner over a byte buffer. `position` indexes the current byte `ch`
/// (`0` past the end), `read_position` the one after it, and `line` counts the
/// line feeds the cursor has passed, from 1.
pub struct Lexer {
    input: Vec<u8>,
    position: usize,
    read_position: usize,
    ch: u8,
    line: usize,
}

impl View for Lexer {
    type V = LexerView;

    closed spec fn view(&self) -> LexerView {
        LexerView { input: self.input@, position: self.position as int }
    }
}

proof fn lemma_newlines_bound(s: Seq<u8>)
    ensures
        newlines(s) <= s.len(),
    decreases s.len(),
{
    if s.len() > 0 {
        lemma_newlines_bound(s.drop_last());
    }
}

proof fn lemma_newlines_extend(s: Seq<u8>, p: int)
    requires
        0 <= p < s.len(),
    ensures
        newlines(s.subrange(0, p + 1)) == newlines(s.subrange(0, p)) + if s[p] == LF {
            1nat
        } else {
            0nat
        },
{
    assert(s.subrange(0, p + 1).drop_last() =~= s.subrange(0, p));
}

/// Recognises a letter or underscore.
pub fn is_alpha(ch: u8) -> (r: bool)
    ensures
        r == is_letter(ch),
{
    97u8 <= ch && ch <= 122u8 || 65u8 <= ch && ch <= 90u8 || ch == UNDERSCORE
}

fn is_digit_byte(ch: u8) -> (r: bool)
    ensures
        r == is_digit(ch),
{
    48u8 <= ch && ch <= 57u8
}

fn is_space_byte(ch: u8) -> (r: bool)
    ensures
        r == is_space(ch),
{
    ch == SPACE || ch == TAB || ch == CR || ch == LF
}

fn is_blank_byte(ch: u8) -> (r: bool)
    ensures
        r == is_blank(ch),
{
    ch == SPACE || ch == TAB
}

impl Lexer {
    /// The scanner's internal consistency: the look-ahead index, the current
    /// byte and the line number all agree with the cursor.
    pub closed spec fn wf(&self) -> bool {
        &&& self.input@.len() < usize::MAX
        &&& self.position < usize::MAX
        &&& self.read_position == self.position + 1
        &&& self.ch == byte_at(self.input@, self.position as int)
        &&& self.line == line_at(self.input@, self.position as int)
    }

    /// A scanner over the bytes of `input`, its cursor on the first byte.
    pub fn new(input: String) -> (l: Lexer)
        requires
            encode_utf8(input@).len() < usize::MAX,
        ensures
            l.wf(),
            l@.input == encode_utf8(input@),
            l@.position == 0,
    {
        let bytes = slice_to_vec(input.as_str().as_bytes());
        let mut l = Lexer { input: bytes, position: 0, read_position: 1, ch: 0, line: 1 };
        if l.input.len() > 0 {
            l.ch = l.input[0];
        }
        proof {
            assert(l.input@.subrange(0, 0) =~= Seq::<u8>::empty());
        }
        l
    }

    /// The line on which the cursor stands.
    pub fn line(&self) -> (r: usize)
        requires
            self.wf(),
        ensures
            r == line_at(self@.input, self@.position),
    {
        self.line
    }

    /// The cursor: the index of the current byte.
    pub fn position(&self) -> (r: usize)
        requires
            self.wf(),
        ensures
            r == self@.position,
    {
        self.position
    }

    /// Moves the cursor one byte on, counting a line feed that it leaves
    /// behind. Past the end of the input the current byte stays `0` and the
    /// line stays the same.
    pub fn read_char(&mut self)
        requires
            old(self).wf(),
            old(self)@.position + 1 < usize::MAX,
        ensures
            final(self).wf(),
            final(self)@.input == old(self)@.input,
            final(self)@.position == old(self)@.position + 1,
    {
        if self.position < self.input.len() {
            proof {
                lemma_newlines_bound(self.input@.subrange(0, self.position as int));
                lemma_newlines_extend(self.input@, self.position as int);
            }
            if self.ch == LF {
                self.line = self.line + 1;
            }
        } else {
            assert(self.input@.subrange(0, self.input@.len() as int) =~= self.input@);
        }
        self.position = self.read_position;
        self.read_position = self.read_position + 1;
        if self.position < self.input.len() {
            self.ch = self.input[self.position];
        } else {
            self.ch = 0;
        }
    }

    /// The byte after the current one, or `0` past the end.
    fn peek_char(&self) -> (r: u8)
        requires
            self.wf(),
        ensures
            r == byte_at(self@.input, self@.position + 1),
    {
        if self.read_position < self.input.len() {
            self.input[self.read_position]
        } else {
            0
        }
    }

    /// The input bytes between `start` and `end`.
    fn text(&self, start: usize, end: usize) -> (r: Vec<u8>)
        requires
            start <= end <= self.input@.len(),
        ensures
            r@ == self.input@.subrange(start as int, end as int),
    {
        slice_to_vec(slice_subrange(self.input.as_slice(), start, end))
    }

    /// Moves the cursor past the run of whitespace at it.
    pub fn skip_whitespace(&mut self)
        requires
            old(self).wf(),
        ensures
            final(self).wf(),
            final(self)@.input == old(self)@.input,
            final(self)@.position == spaces_end(old(self)@.input, old(self)@.position),
            old(self)@.position <= final(self)@.position,
            old(self)@.position <= old(self)@.input.len() ==> final(self)@.position
                <= final(self)@.input.len(),
    {
        while is_space_byte(self.ch)
            invariant
                self.wf(),
                self@.input == old(self)@.input,
                old(self)@.position <= self@.position,
                old(self)@.position <= old(self)@.input.len() ==> self@.position
                    <= self@.input.len(),
                spaces_end(self@.input, self@.position) == spaces_end(
                    old(self)@.input,
                    old(self)@.position,
                ),
            decreases self@.input.len() - self@.position,
        {
            self.read_char();
        }
    }

    fn skip_letters(&mut self)
        requires
            old(self).wf(),
        ensures
            final(self).wf(),
            final(self)@.input == old(self)@.input,
            final(self)@.position == letters_end(old(self)@.input, old(self)@.position),
            old(self)@.position <= final(self)@.position,
            old(self)@.position <= old(self)@.input.len() ==> final(self)@.position
                <= final(self)@.input.len(),
    {
        while is_alpha(self.ch)
            invariant
                self.wf(),
                self@.input == old(self)@.input,
                old(self)@.position <= self@.position,
                old(self)@.position <= old(self)@.input.len() ==> self@.position
                    <= self@.input.len(),
                letters_end(self@.input, self@.position) == letters_end(
                    old(self)@.input,
                    old(self)@.position,
                ),
            decreases self@.input.len() - self@.position,
        {
            self.read_char();
        }
    }

    fn skip_digits(&mut self)
        requires
            old(self).wf(),
        ensures
            final(self).wf(),
            final(self)@.input == old(self)@.input,
            final(self)@.position == digits_end(old(self)@.input, old(self)@.position),
            old(self)@.position <= final(self)@.position,
            old(self)@.position <= old(self)@.input.len() ==> final(self)@.position
                <= final(self)@.input.len(),
    {
        while is_digit_byte(self.ch)
            invariant
                self.wf(),
                self@.input == old(self)@.input,
                old(self)@.position <= self@.position,
                old(self)@.position <= old(self)@.input.len() ==> self@.position
                    <= self@.input.len(),
                digits_end(self@.input, self@.position) == digits_end(
                    old(self)@.input,
                    old(self)@.position,
                ),
            decreases self@.input.len() - self@.position,
        {
            self.read_char();
        }
    }

    fn skip_blanks(&mut self)
        requires
            old(self).wf(),
        ensures
            final(self).wf(),
            final(self)@.input == old(self)@.input,
            final(self)@.position == blanks_end(old(self)@.input, old(self)@.position),
            old(self)@.position <= final(self)@.position,
            old(self)@.position <= old(self)@.input.len() ==> final(self)@.position
                <= final(self)@.input.len(),
    {
        while is_blank_byte(self.ch)
            invariant
                self.wf(),
                self@.input == old(self)@.input,
                old(self)@.position <= self@.position,
                old(self)@.position <= old(self)@.input.len() ==> self@.position
                    <= self@.input.len(),
                blanks_end(self@.input, self@.position) == blanks_end(
                    old(self)@.input,
                    old(self)@.position,
                ),
            decreases self@.input.len() - self@.position,
        {
            self.read_char();
        }
    }
    /// The kind of the word between `start` and `end`: a keyword or `Ident`.
    fn lookup_keyword(&self, start: usize, end: usize) -> (r: TokenType)
        requires
            start <= end <= self.input@.len(),
        ensures
            r == keyword_kind(self.input@.subrange(start as int, end as int)),
    {
        let w = Ghost(self.input@.subrange(start as int, end as int));
        let n = end - start;
        if n == 3 && self.input[start] == 108 && self.input[start + 1] == 101 && self.input[start
            + 2] == 116 {
            assert(w@ =~= kw_let());
            TokenType::Let
        } else if n == 3 && self.input[start] == 102 && self.input[start + 1] == 117
            && self.input[start + 2] == 110 {
            assert(w@ =~= kw_fun());
            TokenType::Fun
        } else if n == 2 && self.input[start] == 105 && self.input[start + 1] == 102 {
            assert(w@ =~= kw_if());
            TokenType::If
        } else if n == 4 && self.input[start] == 101 && self.input[start + 1] == 108
            && self.input[start + 2] == 115 && self.input[start + 3] == 101 {
            assert(w@ =~= kw_else());
            TokenType::Else
        } else {
            assert(w@ != kw_let() && w@ != kw_fun()) by {
                if w@ == kw_let() {
                    assert(w@[0] == 108u8 && w@[1] == 101u8 && w@[2] == 116u8);
                }
                if w@ == kw_fun() {
                    assert(w@[0] == 102u8 && w@[1] == 117u8 && w@[2] == 110u8);
                }
            }
            assert(kw_if().len() == 2 && kw_if()[0] == 105u8 && kw_if()[1] == 102u8);
            assert(w@ != kw_if() && w@ != kw_else()) by {
                if w@ == kw_if() {
                    assert(w@[0] == 105u8 && w@[1] == 102u8);
                }
                if w@ == kw_else() {
                    assert(w@[0] == 101u8 && w@[1] == 108u8 && w@[2] == 115u8 && w@[3] == 101u8);
                }
            }
            TokenType::Ident
        }
    }

    /// Puts the cursor back on `pos`, a position it has passed.
    fn rewind(&mut self, pos: usize, line: usize)
        requires
            old(self).wf(),
            pos <= old(self)@.position,
            line == line_at(old(self)@.input, pos as int),
        ensures
            final(self).wf(),
            final(self)@.input == old(self)@.input,
            final(self)@.position == pos,
    {
        self.position = pos;
        self.read_position = pos + 1;
        self.line = line;
        if pos < self.input.len() {
            self.ch = self.input[pos];
        } else {
            self.ch = 0;
        }
    }

    /// Reads an identifier or keyword at the cursor, which stands on a letter
    /// or underscore; `else` followed by blanks and the word `if` is one token.
    pub fn read_ident(&mut self) -> (tok: Token)
        requires
            old(self).wf(),
            is_letter(byte_at(old(self)@.input, old(self)@.position)),
        ensures
            final(self).wf(),
            final(self)@.input == old(self)@.input,
            tok.token_type == word_lexeme(old(self)@.input, old(self)@.position).kind,
            tok.literal@ == old(self)@.input.subrange(
                word_lexeme(old(self)@.input, old(self)@.position).start,
                word_lexeme(old(self)@.input, old(self)@.position).end,
            ),
            final(self)@.position == word_lexeme(old(self)@.input, old(self)@.position).next,
            final(self)@.position <= final(self)@.input.len(),
    {
        let start = self.position;
        self.skip_letters();
        let end = self.position;
        let kind = self.lookup_keyword(start, end);
        if kind == TokenType::Else && is_blank_byte(self.ch) {
            let line = self.line;
            self.skip_blanks();
            let word = self.position;
            self.skip_letters();
            let word_end = self.position;
            if word_end - word == 2 && self.input[word] == 105 && self.input[word + 1] == 102 {
                assert(self.input@.subrange(word as int, word_end as int) =~= kw_if());
                return Token { token_type: TokenType::ElseIf, literal: self.text(start, word_end) };
            }
            assert(!else_if_follows(self.input@, end as int)) by {
                let w = self.input@.subrange(word as int, word_end as int);
                if w == kw_if() {
                    assert(w[0] == 105u8 && w[1] == 102u8);
                }
            }
            self.rewind(end, line);
        }
        Token { token_type: kind, literal: self.text(start, end) }
    }

    /// Reads an integer or floating-point numeral at the cursor, which stands on a digit.
    fn read_number(&mut self) -> (tok: Token)
        requires
            old(self).wf(),
            is_digit(byte_at(old(self)@.input, old(self)@.position)),
        ensures
            final(self).wf(),
            final(self)@.input == old(self)@.input,
            tok.token_type == number_lexeme(old(self)@.input, old(self)@.position).kind,
            tok.literal@ == old(self)@.input.subrange(
                number_lexeme(old(self)@.input, old(self)@.position).start,
                number_lexeme(old(self)@.input, old(self)@.position).end,
            ),
            final(self)@.position == number_lexeme(old(self)@.input, old(self)@.position).next,
            final(self)@.position <= final(self)@.input.len(),
    {
        let start = self.position;
        self.skip_digits();
        if self.ch == DOT && is_digit_byte(self.peek_char()) {
            self.read_char();
            self.skip_digits();
            Token { token_type: TokenType::Float, literal: self.text(start, self.position) }
        } else {
            Token { token_type: TokenType::Int, literal: self.text(start, self.position) }
        }
    }

    /// Reads a string literal at the cursor, which stands on its opening quote.
    fn read_string(&mut self) -> (tok: Token)
        requires
            old(self).wf(),
            byte_at(old(self)@.input, old(self)@.position) == QUOTE,
        ensures
            final(self).wf(),
            final(self)@.input == old(self)@.input,
            tok.token_type == string_lexeme(old(self)@.input, old(self)@.position).kind,
            tok.literal@ == old(self)@.input.subrange(
                string_lexeme(old(self)@.input, old(self)@.position).start,
                string_lexeme(old(self)@.input, old(self)@.position).end,
            ),
            final(self)@.position == string_lexeme(old(self)@.input, old(self)@.position).next,
            final(self)@.position <= final(self)@.input.len(),
    {
        self.read_char();
        let start = self.position;
        while self.position < self.input.len() && self.ch != QUOTE
            invariant
                self.wf(),
                self@.input == old(self)@.input,
                start <= self@.position,
                self@.position <= self@.input.len(),
                quote_end(self@.input, self@.position) == quote_end(self@.input, start as int),
            decreases self@.input.len() - self@.position,
        {
            self.read_char();
        }
        let end = self.position;
        if end < self.input.len() {
            self.read_char();
            Token { token_type: TokenType::String, literal: self.text(start, end) }
        } else {
            Token { token_type: TokenType::Illegal, literal: self.text(start, end) }
        }
    }

    /// The kind of a one-byte punctuation mark.
    fn single_token_type(c: u8) -> (r: TokenType)
        ensures
            r == single_kind(c),
    {
        if c == PLUS {
            TokenType::Plus
        } else if c == MINUS {
            TokenType::Minus
        } else if c == STAR {
            TokenType::Star
        } else if c == SLASH {
            TokenType::Slash
        } else if c == LPAREN {
            TokenType::LParen
        } else if c == RPAREN {
            TokenType::RParen
        } else if c == COLON {
            TokenType::Colon
        } else if c == SEMICOLON {
            TokenType::Semicolon
        } else if c == LESS {
            TokenType::Lt
        } else if c == GREATER {
            TokenType::Gt
        } else {
            TokenType::Illegal
        }
    }

    /// Reads an operator, a punctuation mark or a stray byte at the cursor,
    /// which stands on a byte before the end of the input.
    fn read_operator(&mut self) -> (tok: Token)
        requires
            old(self).wf(),
            old(self)@.position < old(self)@.input.len(),
        ensures
            final(self).wf(),
            final(self)@.input == old(self)@.input,
            tok.token_type == operator_lexeme(old(self)@.input, old(self)@.position).kind,
            tok.literal@ == old(self)@.input.subrange(
                operator_lexeme(old(self)@.input, old(self)@.position).start,
                operator_lexeme(old(self)@.input, old(self)@.position).end,
            ),
            final(self)@.position == operator_lexeme(old(self)@.input, old(self)@.position).next,
            final(self)@.position <= final(self)@.input.len(),
    {
        let start = self.position;
        let c = self.ch;
        let eq_follows = self.peek_char() == EQUALS;
        let kind = if c == LESS && eq_follows {
            TokenType::LtEq
        } else if c == GREATER && eq_follows {
            TokenType::GtEq
        } else if c == EQUALS && eq_follows {
            TokenType::Eq
        } else if c == BANG && eq_follows {
            TokenType::BangEq
        } else {
            Self::single_token_type(c)
        };
        let two = (c == LESS || c == GREATER || c == EQUALS || c == BANG) && eq_follows;
        self.read_char();
        if two {
            self.read_char();
        }
        Token { token_type: kind, literal: self.text(start, self.position) }
    }

    /// Skips whitespace and emits the next token, moving the cursor past it.
    /// At the end of the input (or on a zero byte) it emits `Eof` with an
    /// empty literal and leaves the cursor where it is.
    pub fn next_token(&mut self) -> (tok: Token)
        requires
            old(self).wf(),
        ensures
            final(self).wf(),
            final(self)@.input == old(self)@.input,
            tok.token_type == kind_at(old(self)@.input, old(self)@.position),
            tok.literal@ == literal_at(old(self)@.input, old(self)@.position),
            final(self)@.position == step(old(self)@.input, old(self)@.position),
            old(self)@.position <= old(self)@.input.len() ==> final(self)@.position
                <= final(self)@.input.len(),
    {
        self.skip_whitespace();
        let tok = if self.ch == 0 {
            Token { token_type: TokenType::Eof, literal: Vec::new() }
        } else if is_alpha(self.ch) {
            self.read_ident()
        } else if is_digit_byte(self.ch) {
            self.read_number()
        } else if self.ch == QUOTE {
            self.read_string()
        } else {
            self.read_operator()
        };
        tok
    }
}

} // verus!
