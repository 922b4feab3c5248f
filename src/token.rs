use vstd::prelude::*;

verus! {

/// The closed set of lexeme kinds.
#[derive(Debug, PartialEq, Eq, Structural, Clone, Copy)]
pub enum TokenType {
    Ident,
    Int,
    Float,
    Plus,
    Minus,
    Star,
    Slash,
    Lt,
    Gt,
    LtEq,
    GtEq,
    Eq,
    BangEq,
    Let,
    Fun,
    If,
    Else,
    ElseIf,
    LParen,
    RParen,
    Colon,
    Semicolon,
    String,
    Illegal,
    Eof,
}

/// A lexeme: its kind and the bytes of its literal text.
#[derive(Debug)]
pub struct Token {
    pub token_type: TokenType,
    pub literal: Vec<u8>,
}

impl PartialEq for Token {
    /// Tokens are equal when their kinds and their literals are.
    fn eq(&self, other: &Token) -> (r: bool) {
        if self.token_type != other.token_type || self.literal.len() != other.literal.len() {
            return false;
        }
        let mut i: usize = 0;
        while i < self.literal.len()
            invariant
                self.literal@.len() == other.literal@.len(),
                i <= self.literal@.len(),
                forall|j: int| 0 <= j < i ==> self.literal@[j] == other.literal@[j],
            decreases self.literal@.len() - i,
        {
            if self.literal[i] != other.literal[i] {
                return false;
            }
            i = i + 1;
        }
        assert(self.literal@ =~= other.literal@);
        true
    }
}

impl vstd::std_specs::cmp::PartialEqSpecImpl for Token {
    open spec fn obeys_eq_spec() -> bool {
        true
    }

    open spec fn eq_spec(&self, other: &Token) -> bool {
        self.token_type == other.token_type && self.literal@ == other.literal@
    }
}

/// Pairs a kind with a literal.
#[allow(non_snake_case)]
pub fn newToken(token_type: TokenType, literal: Vec<u8>) -> (t: Token)
    ensures
        t.token_type == token_type,
        t.literal@ == literal@,
{
    Token { token_type, literal }
}

} // verus!
