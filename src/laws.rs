//! Properties of the scanner, stated over the lexical rules that
//! `Lexer::next_token` is proved to follow.
use vstd::prelude::*;
use crate::lexeme::{
    blanks_end, byte_at, digits_end, else_if_follows, is_digit, is_letter, is_space, keyword_kind,
    kind_at, kw_else, kw_fun, kw_if, kw_let, letters_end, lexeme_at, line_at, literal_at,
    newlines, position_after, quote_end, scan, spaces_end, span, step, BANG, DOT, EQUALS, GREATER,
    LESS, QUOTE,
};
use crate::token::TokenType;

verus! {

proof fn lemma_spaces_end_bounds(s: Seq<u8>, i: int)
    requires
        0 <= i <= s.len(),
    ensures
        i <= spaces_end(s, i) <= s.len(),
        forall|j: int| i <= j < spaces_end(s, i) ==> is_space(#[trigger] s[j]),
        spaces_end(s, i) < s.len() ==> !is_space(s[spaces_end(s, i)]),
    decreases s.len() - i,
{
    if i < s.len() && is_space(s[i]) {
        lemma_spaces_end_bounds(s, i + 1);
    }
}

proof fn lemma_letters_end_bounds(s: Seq<u8>, i: int)
    requires
        0 <= i <= s.len(),
    ensures
        i <= letters_end(s, i) <= s.len(),
    decreases s.len() - i,
{
    if i < s.len() && is_letter(s[i]) {
        lemma_letters_end_bounds(s, i + 1);
    }
}

proof fn lemma_digits_end_bounds(s: Seq<u8>, i: int)
    requires
        0 <= i <= s.len(),
    ensures
        i <= digits_end(s, i) <= s.len(),
    decreases s.len() - i,
{
    if i < s.len() && is_digit(s[i]) {
        lemma_digits_end_bounds(s, i + 1);
    }
}

proof fn lemma_blanks_end_bounds(s: Seq<u8>, i: int)
    requires
        0 <= i <= s.len(),
    ensures
        i <= blanks_end(s, i) <= s.len(),
    decreases s.len() - i,
{
    if i < s.len() && crate::lexeme::is_blank(s[i]) {
        lemma_blanks_end_bounds(s, i + 1);
    }
}

proof fn lemma_quote_end_bounds(s: Seq<u8>, i: int)
    requires
        0 <= i <= s.len(),
    ensures
        i <= quote_end(s, i) <= s.len(),
    decreases s.len() - i,
{
    if i < s.len() && s[i] != QUOTE {
        lemma_quote_end_bounds(s, i + 1);
    }
}

/// The lexeme at `i` lies within the input, and one that is not `Eof` takes
/// at least one byte; its literal span lies between `i` and the next cursor.
proof fn lemma_lexeme_bounds(s: Seq<u8>, i: int)
    requires
        0 <= i <= s.len(),
    ensures
        i <= lexeme_at(s, i).start <= lexeme_at(s, i).end <= lexeme_at(s, i).next <= s.len(),
        lexeme_at(s, i).kind != TokenType::Eof ==> i < lexeme_at(s, i).next,
        lexeme_at(s, i).kind == TokenType::Eof <==> byte_at(s, i) == 0,
        lexeme_at(s, i).kind == TokenType::Eof ==> lexeme_at(s, i).next == i,
{
    let c = byte_at(s, i);
    if c != 0 {
        if is_letter(c) {
            lemma_letters_end_bounds(s, i);
            let e = letters_end(s, i);
            lemma_letters_end_bounds(s, i + 1);
            if e < s.len() {
                lemma_blanks_end_bounds(s, e);
                lemma_letters_end_bounds(s, blanks_end(s, e));
            }
        } else if is_digit(c) {
            lemma_digits_end_bounds(s, i + 1);
            let e = digits_end(s, i);
            if e < s.len() {
                lemma_digits_end_bounds(s, e + 1);
            }
        } else if c == QUOTE {
            lemma_quote_end_bounds(s, i + 1);
        }
    }
}

proof fn lemma_scan_bounds(s: Seq<u8>, p: int)
    requires
        0 <= p <= s.len(),
    ensures
        p <= spaces_end(s, p) <= scan(s, p).start <= scan(s, p).end <= step(s, p) <= s.len(),
        kind_at(s, p) != TokenType::Eof ==> spaces_end(s, p) < step(s, p),
        kind_at(s, p) == TokenType::Eof ==> step(s, p) == spaces_end(s, p),
        kind_at(s, p) == TokenType::Eof ==> byte_at(s, spaces_end(s, p)) == 0,
{
    lemma_spaces_end_bounds(s, p);
    lemma_lexeme_bounds(s, spaces_end(s, p));
}

/// Once a scan emits `Eof`, the next scan emits `Eof` again from the cursor
/// where the first one left it.
proof fn lemma_eof_fixed(s: Seq<u8>, p: int)
    requires
        0 <= p <= s.len(),
        kind_at(s, p) == TokenType::Eof,
    ensures
        kind_at(s, step(s, p)) == TokenType::Eof,
        step(s, step(s, p)) == step(s, p),
{
    lemma_scan_bounds(s, p);
    let q = step(s, p);
    assert(spaces_end(s, q) == q);
}

proof fn lemma_eof_stays(s: Seq<u8>, p: int, m: nat)
    requires
        0 <= p <= s.len(),
        kind_at(s, p) == TokenType::Eof,
    ensures
        kind_at(s, position_after(s, p, m)) == TokenType::Eof,
    decreases m,
{
    if m > 0 {
        lemma_eof_fixed(s, p);
        lemma_scan_bounds(s, p);
        lemma_eof_stays(s, step(s, p), (m - 1) as nat);
    }
}

/// Totality: from any cursor `p`, every scan from the `(len - p)`-th on emits
/// `Eof`, so a run of scans reaches `Eof` within that many calls and then keeps
/// returning it.
pub proof fn lemma_totality(s: Seq<u8>, p: int, m: nat)
    requires
        0 <= p <= s.len(),
        m >= s.len() - p,
    ensures
        kind_at(s, position_after(s, p, m)) == TokenType::Eof,
    decreases m,
{
    lemma_scan_bounds(s, p);
    if kind_at(s, p) == TokenType::Eof {
        lemma_eof_stays(s, p, m);
    } else {
        lemma_totality(s, step(s, p), (m - 1) as nat);
    }
}

/// Progress: a scan that emits anything but `Eof` moves the cursor past the
/// whitespace it skipped and past at least one more byte.
pub proof fn lemma_progress(s: Seq<u8>, p: int)
    requires
        0 <= p <= s.len(),
        kind_at(s, p) != TokenType::Eof,
    ensures
        p <= spaces_end(s, p) < step(s, p) <= s.len(),
{
    lemma_scan_bounds(s, p);
}

/// Literal fidelity for one scan: for a token that is not a string (nor the
/// remains of an unterminated string), the bytes a scan consumes are exactly the
/// skipped whitespace followed by the token's literal (empty for `Eof`).
pub proof fn lemma_literal_fidelity(s: Seq<u8>, p: int)
    requires
        0 <= p <= s.len(),
        kind_at(s, p) != TokenType::String,
        byte_at(s, spaces_end(s, p)) != QUOTE,
    ensures
        s.subrange(p, step(s, p)) == s.subrange(p, spaces_end(s, p)) + literal_at(s, p),
        forall|j: int| p <= j < spaces_end(s, p) ==> is_space(#[trigger] s[j]),
{
    lemma_scan_bounds(s, p);
    lemma_spaces_end_bounds(s, p);
    let i = spaces_end(s, p);
    assert(scan(s, p).start == i && scan(s, p).end == step(s, p));
    assert(s.subrange(i, i) =~= Seq::<u8>::empty());
    assert(s.subrange(p, step(s, p)) =~= s.subrange(p, i) + s.subrange(i, step(s, p)));
}

/// The skipped whitespace and the literals of `n` scans from `p`, concatenated.
pub open spec fn rebuilt(s: Seq<u8>, p: int, n: nat) -> Seq<u8>
    decreases n,
{
    if n == 0 {
        Seq::empty()
    } else {
        s.subrange(p, spaces_end(s, p)) + literal_at(s, p) + rebuilt(s, step(s, p), (n - 1) as nat)
    }
}

/// Whether the scan from `p` recognises a string literal, closed or not.
pub open spec fn scans_string(s: Seq<u8>, p: int) -> bool {
    kind_at(s, p) == TokenType::String || byte_at(s, spaces_end(s, p)) == QUOTE
}

proof fn lemma_position_after_bounds(s: Seq<u8>, p: int, n: nat)
    requires
        0 <= p <= s.len(),
    ensures
        p <= position_after(s, p, n) <= s.len(),
    decreases n,
{
    if n > 0 {
        lemma_scan_bounds(s, p);
        lemma_position_after_bounds(s, step(s, p), (n - 1) as nat);
    }
}

/// Literal fidelity over a run: when none of `n` scans from `p` meets a string
/// literal, their skipped whitespace and literals, concatenated, are exactly
/// the input between `p` and the cursor where the run ends.
pub proof fn lemma_run_fidelity(s: Seq<u8>, p: int, n: nat)
    requires
        0 <= p <= s.len(),
        forall|k: nat| k < n ==> !scans_string(s, #[trigger] position_after(s, p, k)),
    ensures
        s.subrange(p, position_after(s, p, n)) == rebuilt(s, p, n),
    decreases n,
{
    if n == 0 {
        assert(s.subrange(p, p) =~= Seq::<u8>::empty());
    } else {
        assert(position_after(s, p, 0) == p);
        lemma_literal_fidelity(s, p);
        lemma_scan_bounds(s, p);
        let q = step(s, p);
        assert forall|k: nat| k < (n - 1) as nat implies !scans_string(
            s,
            #[trigger] position_after(s, q, k),
        ) by {
            assert(position_after(s, p, k + 1) == position_after(s, q, k));
        }
        lemma_run_fidelity(s, q, (n - 1) as nat);
        lemma_position_after_bounds(s, q, (n - 1) as nat);
        let r = position_after(s, p, n);
        assert(s.subrange(p, r) =~= s.subrange(p, q) + s.subrange(q, r));
    }
}

proof fn lemma_position_after_last(s: Seq<u8>, p: int, n: nat)
    ensures
        position_after(s, p, n + 1) == step(s, position_after(s, p, n)),
    decreases n,
{
    assert(position_after(s, p, n + 1) == position_after(s, step(s, p), n));
    if n > 0 {
        lemma_position_after_last(s, step(s, p), (n - 1) as nat);
        assert(position_after(s, p, n) == position_after(s, step(s, p), (n - 1) as nat));
    } else {
        assert(position_after(s, step(s, p), 0) == step(s, p));
    }
}

/// Literal fidelity over a whole input: on input without zero bytes and
/// without string literals, the skipped whitespace and the literals of
/// `len + 1` scans from the start, concatenated, are the input itself.
pub proof fn lemma_input_fidelity(s: Seq<u8>)
    requires
        forall|j: int| 0 <= j < s.len() ==> #[trigger] s[j] != 0,
        forall|k: nat| k <= s.len() ==> !scans_string(s, #[trigger] position_after(s, 0, k)),
    ensures
        rebuilt(s, 0, (s.len() + 1) as nat) == s,
{
    let n = s.len() as nat;
    lemma_totality(s, 0, n);
    lemma_position_after_bounds(s, 0, n);
    lemma_line_count(s, position_after(s, 0, n));
    lemma_position_after_last(s, 0, n);
    lemma_run_fidelity(s, 0, n + 1);
    assert(s.subrange(0, s.len() as int) =~= s);
}

/// Keyword determinism: a run of letters and underscores is `Let`, `Fun`, `If`
/// or `Else` when it spells that keyword, `ElseIf` when it spells `else` and
/// blanks and the word `if` follow, and `Ident` otherwise; the literal of each
/// is the run itself (for `ElseIf`, the whole span up to the end of `if`).
pub proof fn lemma_keyword_determinism(s: Seq<u8>, i: int)
    requires
        0 <= i < s.len(),
        is_letter(s[i]),
    ensures
        ({
            let e = letters_end(s, i);
            let w = s.subrange(i, e);
            let t = lexeme_at(s, i);
            &&& w == kw_let() ==> t == span(TokenType::Let, i, e)
            &&& w == kw_fun() ==> t == span(TokenType::Fun, i, e)
            &&& w == kw_if() ==> t == span(TokenType::If, i, e)
            &&& w == kw_else() && !else_if_follows(s, e) ==> t == span(TokenType::Else, i, e)
            &&& w == kw_else() && else_if_follows(s, e) ==> t == span(
                TokenType::ElseIf,
                i,
                letters_end(s, blanks_end(s, e)),
            )
            &&& w != kw_let() && w != kw_fun() && w != kw_if() && w != kw_else() ==> t == span(
                TokenType::Ident,
                i,
                e,
            )
        }),
{
    let e = letters_end(s, i);
    let w = s.subrange(i, e);
    assert(w == kw_let() ==> keyword_kind(w) == TokenType::Let);
}

/// Operator disambiguation: each of `<`, `>`, `=`, `!` followed by `=` is one
/// two-byte token (`LtEq`, `GtEq`, `Eq`, `BangEq`); `<` and `>` alone are `Lt`
/// and `Gt`, while `=` and `!` alone are one-byte `Illegal` tokens.
pub proof fn lemma_operator_disambiguation(s: Seq<u8>, i: int)
    requires
        0 <= i < s.len(),
    ensures
        ({
            let c = s[i];
            let eq = byte_at(s, i + 1) == EQUALS;
            let t = lexeme_at(s, i);
            &&& c == LESS && eq ==> t == span(TokenType::LtEq, i, i + 2)
            &&& c == LESS && !eq ==> t == span(TokenType::Lt, i, i + 1)
            &&& c == GREATER && eq ==> t == span(TokenType::GtEq, i, i + 2)
            &&& c == GREATER && !eq ==> t == span(TokenType::Gt, i, i + 1)
            &&& c == EQUALS && eq ==> t == span(TokenType::Eq, i, i + 2)
            &&& c == EQUALS && !eq ==> t == span(TokenType::Illegal, i, i + 1)
            &&& c == BANG && eq ==> t == span(TokenType::BangEq, i, i + 2)
            &&& c == BANG && !eq ==> t == span(TokenType::Illegal, i, i + 1)
        }),
{
}

/// Numeric split: a run of digits followed by `.` and a digit is one `Float`
/// token up to the end of the second run; followed by `.` and anything else it
/// is an `Int` token, and the `.` is then a one-byte `Illegal` token.
pub proof fn lemma_numeric_split(s: Seq<u8>, i: int)
    requires
        0 <= i < s.len(),
        is_digit(s[i]),
    ensures
        ({
            let e = digits_end(s, i);
            &&& byte_at(s, e) == DOT && is_digit(byte_at(s, e + 1)) ==> lexeme_at(s, i) == span(
                TokenType::Float,
                i,
                digits_end(s, e + 1),
            )
            &&& byte_at(s, e) == DOT && !is_digit(byte_at(s, e + 1)) ==> lexeme_at(s, i) == span(
                TokenType::Int,
                i,
                e,
            ) && lexeme_at(s, e) == span(TokenType::Illegal, e, e + 1)
        }),
{
}

/// Line counting: on input without zero bytes, the scan that emits `Eof`
/// leaves the cursor at the end of the input, so the line there is one plus
/// the number of line feeds in the whole input.
pub proof fn lemma_line_count(s: Seq<u8>, p: int)
    requires
        0 <= p <= s.len(),
        forall|j: int| 0 <= j < s.len() ==> #[trigger] s[j] != 0,
        kind_at(s, p) == TokenType::Eof,
    ensures
        step(s, p) == s.len(),
        line_at(s, step(s, p)) == 1 + newlines(s),
{
    lemma_scan_bounds(s, p);
    assert(s.subrange(0, s.len() as int) =~= s);
}

} // verus!
