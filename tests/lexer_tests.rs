use lexer::TokenType as T;
use lexer::{newToken, Lexer, Token, TokenType};

fn lex_all(input: &str) -> Vec<(TokenType, String)> {
    let mut l = Lexer::new(input.to_string());
    let mut out = Vec::new();
    loop {
        let t = l.next_token();
        let kind = t.token_type;
        out.push((kind, String::from_utf8(t.literal).unwrap()));
        if kind == TokenType::Eof {
            return out;
        }
    }
}

fn expect(input: &str, expected: &[(TokenType, &str)]) {
    let got = lex_all(input);
    let want: Vec<(TokenType, String)> =
        expected.iter().map(|(k, s)| (*k, s.to_string())).collect();
    assert_eq!(got, want);
}

#[test]
fn test_next_token() {
    let input = r###"let five = 5
        let ten = 10.5

        let string = "name"; let another = "another name"

        fun add(x, y):
            x + y   

        let result = add(five, ten)
        !-/*5
        5 < 10 > 5

        5 <= 10 >= 5

        if 5 < 10:
            return "if"
        else if:
            return "else if"
        else:
            return "else"

        10 == 10
        10 != 9
        "###;

    let mut l = Lexer::new(input.to_string());

    let expected: [Token; 2] = [
        Token { token_type: TokenType::Let, literal: "let".as_bytes().to_vec() },
        Token { token_type: TokenType::Ident, literal: "five".as_bytes().to_vec() },
    ];

    for e in expected.iter() {
        let t = l.next_token();
        assert_eq!(e.token_type, t.token_type);
        assert_eq!(e.literal, t.literal);
    }
}

#[test]
fn scenario_let_int() {
    expect(
        "let x = 5",
        &[(T::Let, "let"), (T::Ident, "x"), (T::Illegal, "="), (T::Int, "5"), (T::Eof, "")],
    );
}

#[test]
fn scenario_let_float() {
    expect(
        "let pi = 3.14",
        &[(T::Let, "let"), (T::Ident, "pi"), (T::Illegal, "="), (T::Float, "3.14"), (T::Eof, "")],
    );
}

#[test]
fn scenario_strings() {
    expect("\"hello\" \"world", &[(T::String, "hello"), (T::Illegal, "world"), (T::Eof, "")]);
}

#[test]
fn scenario_comparisons() {
    expect(
        "a<=b>=c==d!=e",
        &[
            (T::Ident, "a"),
            (T::LtEq, "<="),
            (T::Ident, "b"),
            (T::GtEq, ">="),
            (T::Ident, "c"),
            (T::Eq, "=="),
            (T::Ident, "d"),
            (T::BangEq, "!="),
            (T::Ident, "e"),
            (T::Eof, ""),
        ],
    );
}

#[test]
fn scenario_if_else_if() {
    expect(
        "if x: y else if z: w else: q",
        &[
            (T::If, "if"),
            (T::Ident, "x"),
            (T::Colon, ":"),
            (T::Ident, "y"),
            (T::ElseIf, "else if"),
            (T::Ident, "z"),
            (T::Colon, ":"),
            (T::Ident, "w"),
            (T::Else, "else"),
            (T::Colon, ":"),
            (T::Ident, "q"),
            (T::Eof, ""),
        ],
    );
}

#[test]
fn scenario_fun() {
    expect(
        "fun add(x, y): x + y",
        &[
            (T::Fun, "fun"),
            (T::Ident, "add"),
            (T::LParen, "("),
            (T::Ident, "x"),
            (T::Illegal, ","),
            (T::Ident, "y"),
            (T::RParen, ")"),
            (T::Colon, ":"),
            (T::Ident, "x"),
            (T::Plus, "+"),
            (T::Ident, "y"),
            (T::Eof, ""),
        ],
    );
}

#[test]
fn eof_repeats_after_end() {
    let mut l = Lexer::new("x".to_string());
    assert_eq!(l.next_token().token_type, TokenType::Ident);
    for _ in 0..3 {
        let t = l.next_token();
        assert_eq!(t.token_type, TokenType::Eof);
        assert!(t.literal.is_empty());
        assert_eq!(l.position(), 1);
    }
}

#[test]
fn empty_input_is_eof() {
    let mut l = Lexer::new(String::new());
    assert_eq!(l.next_token().token_type, TokenType::Eof);
    assert_eq!(l.line(), 1);
}

#[test]
fn every_token_advances_cursor() {
    let input = "let a = \"s\" 1.5 !x # <= \"open";
    let mut l = Lexer::new(input.to_string());
    let mut calls = 0;
    loop {
        let before = l.position();
        let t = l.next_token();
        calls += 1;
        if t.token_type == TokenType::Eof {
            break;
        }
        assert!(l.position() > before);
        assert!(calls <= input.len());
    }
    assert_eq!(l.position(), input.len());
}

#[test]
fn literals_and_whitespace_rebuild_input() {
    let input = "let  x\t<= 12.5 +\r\n( y_z ) ; ! = 3. q";
    let mut l = Lexer::new(input.to_string());
    let mut rebuilt: Vec<u8> = Vec::new();
    loop {
        let before = l.position();
        let t = l.next_token();
        if t.token_type == TokenType::Eof {
            rebuilt.extend_from_slice(&input.as_bytes()[before..l.position()]);
            break;
        }
        let consumed = &input.as_bytes()[before..l.position()];
        let gap = consumed.len() - t.literal.len();
        assert!(consumed[..gap].iter().all(|b| b" \t\r\n".contains(b)));
        assert_eq!(&consumed[gap..], &t.literal[..]);
        rebuilt.extend_from_slice(consumed);
    }
    assert_eq!(rebuilt, input.as_bytes());
}

#[test]
fn keywords_and_identifiers() {
    expect(
        "let fun if else lets Fun _if elsewhere",
        &[
            (T::Let, "let"),
            (T::Fun, "fun"),
            (T::If, "if"),
            (T::Else, "else"),
            (T::Ident, "lets"),
            (T::Ident, "Fun"),
            (T::Ident, "_if"),
            (T::Ident, "elsewhere"),
            (T::Eof, ""),
        ],
    );
}

#[test]
fn else_if_with_tabs_and_spaces() {
    expect("else \t  if", &[(T::ElseIf, "else \t  if"), (T::Eof, "")]);
}

#[test]
fn else_followed_by_longer_word() {
    expect("else iffy", &[(T::Else, "else"), (T::Ident, "iffy"), (T::Eof, "")]);
}

#[test]
fn else_newline_if_is_two_tokens() {
    expect("else\nif", &[(T::Else, "else"), (T::If, "if"), (T::Eof, "")]);
}

#[test]
fn operators_short_and_long() {
    expect("<", &[(T::Lt, "<"), (T::Eof, "")]);
    expect("<=", &[(T::LtEq, "<="), (T::Eof, "")]);
    expect(">", &[(T::Gt, ">"), (T::Eof, "")]);
    expect(">=", &[(T::GtEq, ">="), (T::Eof, "")]);
    expect("==", &[(T::Eq, "=="), (T::Eof, "")]);
    expect("!=", &[(T::BangEq, "!="), (T::Eof, "")]);
    expect("!", &[(T::Illegal, "!"), (T::Eof, "")]);
    expect("=", &[(T::Illegal, "="), (T::Eof, "")]);
}

#[test]
fn punctuation() {
    expect(
        "+-*/():;",
        &[
            (T::Plus, "+"),
            (T::Minus, "-"),
            (T::Star, "*"),
            (T::Slash, "/"),
            (T::LParen, "("),
            (T::RParen, ")"),
            (T::Colon, ":"),
            (T::Semicolon, ";"),
            (T::Eof, ""),
        ],
    );
}

#[test]
fn numeric_split() {
    expect("1.", &[(T::Int, "1"), (T::Illegal, "."), (T::Eof, "")]);
    expect("1.x", &[(T::Int, "1"), (T::Illegal, "."), (T::Ident, "x"), (T::Eof, "")]);
    expect("1.5", &[(T::Float, "1.5"), (T::Eof, "")]);
    expect("42abc", &[(T::Int, "42"), (T::Ident, "abc"), (T::Eof, "")]);
}

#[test]
fn line_count_after_full_scan() {
    let input = "let a\n\n\"x\ny\"\r\nb\n";
    let mut l = Lexer::new(input.to_string());
    while l.next_token().token_type != TokenType::Eof {}
    assert_eq!(l.line(), 1 + input.bytes().filter(|b| *b == b'\n').count());
    assert_eq!(l.line(), 6);
}

#[test]
fn line_counts_newline_inside_unterminated_string() {
    let mut l = Lexer::new("\"a\nb\n".to_string());
    let t = l.next_token();
    assert_eq!(t.token_type, TokenType::Illegal);
    assert_eq!(t.literal, b"a\nb\n".to_vec());
    assert_eq!(l.line(), 3);
}

#[test]
fn non_ascii_byte_is_illegal() {
    let mut l = Lexer::new("aé".to_string());
    assert_eq!(l.next_token().literal, b"a".to_vec());
    let t = l.next_token();
    assert_eq!(t.token_type, TokenType::Illegal);
    assert_eq!(t.literal, vec![0xC3u8]);
    let t = l.next_token();
    assert_eq!(t.token_type, TokenType::Illegal);
    assert_eq!(t.literal, vec![0xA9u8]);
    assert_eq!(l.next_token().token_type, TokenType::Eof);
}

#[test]
fn zero_byte_ends_the_scan() {
    let mut l = Lexer::new("a\0b".to_string());
    assert_eq!(l.next_token().token_type, TokenType::Ident);
    assert_eq!(l.next_token().token_type, TokenType::Eof);
    assert_eq!(l.next_token().token_type, TokenType::Eof);
}

#[test]
fn new_token_pairs_kind_and_literal() {
    let t = newToken(TokenType::Semicolon, b";".to_vec());
    assert_eq!(t.token_type, TokenType::Semicolon);
    assert_eq!(t.literal, b";".to_vec());
}

#[test]
fn read_ident_directly() {
    let mut l = Lexer::new("else  if!".to_string());
    let t = l.read_ident();
    assert_eq!(t.token_type, TokenType::ElseIf);
    assert_eq!(t.literal, b"else  if".to_vec());
    assert_eq!(l.position(), 8);
}

#[test]
fn read_char_and_skip_whitespace() {
    let mut l = Lexer::new("a \n\t b".to_string());
    l.read_char();
    assert_eq!(l.position(), 1);
    l.skip_whitespace();
    assert_eq!(l.position(), 5);
    assert_eq!(l.line(), 2);
    assert!(lexer::lexer::is_alpha(b'_'));
    assert!(!lexer::lexer::is_alpha(b'7'));
}

#[test]
fn token_equality_by_kind_and_literal() {
    let a = newToken(TokenType::Ident, b"ab".to_vec());
    assert!(a == newToken(TokenType::Ident, b"ab".to_vec()));
    assert!(a != newToken(TokenType::Ident, b"ac".to_vec()));
    assert!(a != newToken(TokenType::Ident, b"abc".to_vec()));
    assert!(a != newToken(TokenType::String, b"ab".to_vec()));
}

#[test]
fn read_char_moves_past_end() {
    let mut l = Lexer::new("a\n".to_string());
    l.read_char();
    l.read_char();
    assert_eq!(l.position(), 2);
    assert_eq!(l.line(), 2);
    l.read_char();
    assert_eq!(l.position(), 3);
    assert_eq!(l.line(), 2);
    let t = l.next_token();
    assert_eq!(t.token_type, TokenType::Eof);
    assert!(t.literal.is_empty());
    assert_eq!(l.position(), 3);
    assert_eq!(l.next_token().token_type, TokenType::Eof);
    assert_eq!(l.position(), 3);
}
