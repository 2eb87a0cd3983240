use calc_core::lexer::{Keyword, Lexer, NumberLit, TokenKind};

fn kinds(input: &str) -> Vec<TokenKind> {
    let mut l = Lexer::new(input);
    l.tokenize().unwrap().into_iter().map(|t| t.kind).collect()
}

fn dec(s: &str) -> TokenKind {
    TokenKind::Number(NumberLit::Decimal(s.to_string()))
}

#[test]
fn test_basic_tokens() {
    let k = kinds("1 + 2");
    assert_eq!(k, vec![dec("1"), TokenKind::Plus, dec("2"), TokenKind::Eof]);
}

#[test]
fn test_hex() {
    let k = kinds("0xFF");
    assert_eq!(k, vec![TokenKind::Number(NumberLit::Integer(255)), TokenKind::Eof]);
}

#[test]
fn test_binary() {
    let k = kinds("0b1010");
    assert_eq!(k, vec![TokenKind::Number(NumberLit::Integer(10)), TokenKind::Eof]);
}

#[test]
fn test_scientific() {
    let k = kinds("1e10");
    assert_eq!(k, vec![dec("1e10"), TokenKind::Eof]);
    let v: f64 = match &k[0] {
        TokenKind::Number(NumberLit::Decimal(s)) => s.parse().unwrap(),
        _ => panic!("expected a number"),
    };
    assert_eq!(v, 1e10);
}

#[test]
fn test_keyword() {
    let k = kinds("100 km in m");
    assert!(k.contains(&TokenKind::Keyword(Keyword::In)));
}

#[test]
fn test_comment() {
    let k = kinds("# hello");
    assert!(matches!(&k[0], TokenKind::Comment(s) if s == " hello"));
}

#[test]
fn octal_and_separators() {
    assert_eq!(kinds("0o17"), vec![TokenKind::Number(NumberLit::Integer(15)), TokenKind::Eof]);
    assert_eq!(kinds("1_000"), vec![dec("1000"), TokenKind::Eof]);
}

#[test]
fn newline_tokens_and_positions() {
    let mut l = Lexer::new("1\n2");
    let toks = l.tokenize().unwrap();
    assert_eq!(toks.len(), 4);
    assert_eq!(toks[1].kind, TokenKind::Newline);
    assert_eq!((toks[2].line, toks[2].col), (2, 1));
}

#[test]
fn unexpected_character_is_an_error() {
    let mut l = Lexer::new("1 $ 2");
    let e = l.tokenize().unwrap_err();
    assert_eq!(e.line, 1);
    assert_eq!(e.col, 3);
    assert!(e.to_display_string().starts_with("[1:3] "));
}

#[test]
fn decimal_comma_reads_as_point() {
    assert_eq!(kinds("12,50"), kinds("12.50"));
    assert_eq!(kinds("12,50"), vec![dec("12.50"), TokenKind::Eof]);
    let mut l = Lexer::new("3,5");
    let toks = l.tokenize().unwrap();
    assert_eq!((toks[1].line, toks[1].col), (1, 4));
}

#[test]
fn unexpected_character_message_quotes_it() {
    let mut l = Lexer::new("1 $ 2");
    let e = l.tokenize().unwrap_err();
    assert_eq!(e.message, "Unexpected character: '$'");
    let mut l = Lexer::new("x = \u{1F600}");
    assert_eq!(l.tokenize().unwrap_err().message, "Unexpected character: '\u{1F600}'");
}

#[test]
fn token_shape_of_a_document() {
    let mut l = Lexer::new("a\n\n  b");
    let toks = l.tokenize().unwrap();
    let eofs = toks.iter().filter(|t| t.kind == TokenKind::Eof).count();
    assert_eq!(eofs, 1);
    assert_eq!(toks.last().unwrap().kind, TokenKind::Eof);
    assert_eq!(toks.iter().filter(|t| t.kind == TokenKind::Newline).count(), 2);
    assert_eq!((toks[3].line, toks[3].col), (3, 3));
    assert_eq!((toks[4].line, toks[4].col), (3, 4));
}
