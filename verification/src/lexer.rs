//! The lexer: turns a document into tokens carrying 1-based line and column.
//!
//! Number literals are kept as text (decimal) or as an exact integer (hex,
//! binary, octal); their floating-point value is computed by the evaluator.
use vstd::prelude::*;
use crate::error::{CalcError, CalcErrorV};
use crate::text::{
    char_debug, char_shown, char_is_alphabetic, char_is_alphanumeric, concat_str, is_ascii_letter,
    is_alphabetic, is_alphanumeric, is_ascii_digit, is_ascii_digit_spec, is_ascii_hexdigit,
    is_ascii_hexdigit_spec, push_char, string_from_chars, str_eq, chars_of,
};

verus! {

/// Keywords recognised by the lexer.
#[derive(Debug, Clone, Copy, PartialEq, Eq, Structural)]
pub enum Keyword {
    In,
    To,
    As,
    Of,
}

/// A number literal as written: decimal text (comma decimal separators turned
/// into `.`, `_` separators dropped, accepted by Rust's float syntax) or the
/// exact value of a hexadecimal, binary or octal literal.
#[derive(Debug, Clone, PartialEq)]
pub enum NumberLit {
    Decimal(String),
    Integer(u64),
}

/// The mathematical content of a `NumberLit`.
pub enum NumberLitV {
    Decimal(Seq<char>),
    Integer(u64),
}

/// All token kinds produced by the lexer.
#[derive(Debug, Clone, PartialEq)]
pub enum TokenKind {
    Number(NumberLit),
    Ident(String),
    Plus,
    Minus,
    Star,
    Slash,
    Percent,
    Caret,
    Eq,
    LParen,
    RParen,
    Comma,
    Colon,
    Comment(String),
    Keyword(Keyword),
    Newline,
    Eof,
}

/// The mathematical content of a `TokenKind`.
pub enum TokenKindV {
    Number(NumberLitV),
    Ident(Seq<char>),
    Plus,
    Minus,
    Star,
    Slash,
    Percent,
    Caret,
    Eq,
    LParen,
    RParen,
    Comma,
    Colon,
    Comment(Seq<char>),
    Keyword(Keyword),
    Newline,
    Eof,
}

/// A token and the 1-based line and column of its first character.
#[derive(Debug, Clone)]
pub struct Token {
    pub kind: TokenKind,
    pub line: usize,
    pub col: usize,
}

/// The mathematical content of a `Token`.
pub struct TokenV {
    pub kind: TokenKindV,
    pub line: nat,
    pub col: nat,
}

impl View for NumberLit {
    type V = NumberLitV;

    open spec fn view(&self) -> NumberLitV {
        match self {
            NumberLit::Decimal(s) => NumberLitV::Decimal(s@),
            NumberLit::Integer(v) => NumberLitV::Integer(*v),
        }
    }
}

impl View for TokenKind {
    type V = TokenKindV;

    open spec fn view(&self) -> TokenKindV {
        match self {
            TokenKind::Number(n) => TokenKindV::Number(n@),
            TokenKind::Ident(s) => TokenKindV::Ident(s@),
            TokenKind::Plus => TokenKindV::Plus,
            TokenKind::Minus => TokenKindV::Minus,
            TokenKind::Star => TokenKindV::Star,
            TokenKind::Slash => TokenKindV::Slash,
            TokenKind::Percent => TokenKindV::Percent,
            TokenKind::Caret => TokenKindV::Caret,
            TokenKind::Eq => TokenKindV::Eq,
            TokenKind::LParen => TokenKindV::LParen,
            TokenKind::RParen => TokenKindV::RParen,
            TokenKind::Comma => TokenKindV::Comma,
            TokenKind::Colon => TokenKindV::Colon,
            TokenKind::Comment(s) => TokenKindV::Comment(s@),
            TokenKind::Keyword(k) => TokenKindV::Keyword(*k),
            TokenKind::Newline => TokenKindV::Newline,
            TokenKind::Eof => TokenKindV::Eof,
        }
    }
}

impl View for Token {
    type V = TokenV;

    open spec fn view(&self) -> TokenV {
        TokenV { kind: self.kind@, line: self.line as nat, col: self.col as nat }
    }
}

/// The views of a sequence of tokens.
pub open spec fn tokens_view(ts: Seq<Token>) -> Seq<TokenV> {
    ts.map_values(|t: Token| t@)
}

// ── Positions ──────────────────────────────────────────────────────────────

/// The 1-based line of index `p` in `s`: one more than the line feeds before it.
pub open spec fn line_at(s: Seq<char>, p: int) -> nat
    decreases p,
{
    if p <= 0 {
        1
    } else {
        line_at(s, p - 1) + if s[p - 1] == '\n' { 1nat } else { 0nat }
    }
}

/// The 1-based column of index `p` in `s`: one more than the characters since
/// the last line feed before it.
pub open spec fn col_at(s: Seq<char>, p: int) -> nat
    decreases p,
{
    if p <= 0 {
        1
    } else if s[p - 1] == '\n' {
        1
    } else {
        col_at(s, p - 1) + 1
    }
}

// ── Character runs ─────────────────────────────────────────────────────────

/// Blanks skipped between tokens: space, tab and carriage return.
pub open spec fn is_blank(c: char) -> bool {
    c == ' ' || c == '\t' || c == '\r'
}

/// The first index at or after `p` that is not a blank.
pub open spec fn skip_blanks(s: Seq<char>, p: int) -> int
    decreases s.len() - p,
{
    if 0 <= p < s.len() && is_blank(s[p]) {
        skip_blanks(s, p + 1)
    } else {
        p
    }
}

/// The first index at or after `p` that holds a line feed, or the end.
pub open spec fn line_end(s: Seq<char>, p: int) -> int
    decreases s.len() - p,
{
    if 0 <= p < s.len() && s[p] != '\n' {
        line_end(s, p + 1)
    } else {
        p
    }
}

/// Characters that continue an identifier: letters and digits (Unicode
/// alphanumerics beyond ASCII) and `_`.
pub open spec fn is_ident_char(c: char) -> bool {
    if (c as u32) < 128 {
        is_ascii_letter(c) || is_ascii_digit_spec(c) || c == '_'
    } else {
        char_is_alphanumeric(c)
    }
}

/// Letters (Unicode alphabetics beyond ASCII).
pub open spec fn is_letter(c: char) -> bool {
    if (c as u32) < 128 {
        is_ascii_letter(c)
    } else {
        char_is_alphabetic(c)
    }
}

/// The first index at or after `p` that does not continue an identifier.
pub open spec fn ident_end(s: Seq<char>, p: int) -> int
    decreases s.len() - p,
{
    if 0 <= p < s.len() && is_ident_char(s[p]) {
        ident_end(s, p + 1)
    } else {
        p
    }
}

/// The first index at or after `p` that is not an ASCII digit.
pub open spec fn digits_end(s: Seq<char>, p: int) -> int
    decreases s.len() - p,
{
    if 0 <= p < s.len() && is_ascii_digit_spec(s[p]) {
        digits_end(s, p + 1)
    } else {
        p
    }
}

// ── Decimal literals ───────────────────────────────────────────────────────

/// Characters that continue the digits of a decimal literal: digits, `.`,
/// a `,` followed by a digit (a decimal comma), and `_` separators.
pub open spec fn continues_mantissa(s: Seq<char>, p: int) -> bool {
    ||| is_ascii_digit_spec(s[p])
    ||| s[p] == '.'
    ||| (s[p] == ',' && p + 1 < s.len() && is_ascii_digit_spec(s[p + 1]))
    ||| s[p] == '_'
}

/// The end of the digits part of a decimal literal starting at `p`.
pub open spec fn mantissa_end(s: Seq<char>, p: int) -> int
    decreases s.len() - p,
{
    if 0 <= p < s.len() && continues_mantissa(s, p) {
        mantissa_end(s, p + 1)
    } else {
        p
    }
}

/// The digits part as parsed: commas read as `.`, underscores dropped.
pub open spec fn normalize_mantissa(t: Seq<char>) -> Seq<char>
    decreases t.len(),
{
    if t.len() == 0 {
        t
    } else {
        let r = normalize_mantissa(t.drop_last());
        let c = t.last();
        if c == '_' {
            r
        } else if c == ',' {
            r.push('.')
        } else {
            r.push(c)
        }
    }
}

/// The number of `.` characters in `t`.
pub open spec fn count_dots(t: Seq<char>) -> nat
    decreases t.len(),
{
    if t.len() == 0 {
        0
    } else {
        count_dots(t.drop_last()) + if t.last() == '.' { 1nat } else { 0nat }
    }
}

/// Whether an exponent (`e` or `E`, then a sign or a digit) starts at `p`.
pub open spec fn exponent_starts(s: Seq<char>, p: int) -> bool {
    &&& 0 <= p
    &&& p + 1 < s.len()
    &&& (s[p] == 'e' || s[p] == 'E')
    &&& (s[p + 1] == '+' || s[p + 1] == '-' || is_ascii_digit_spec(s[p + 1]))
}

/// Where the exponent's digits start, after `e` and an optional sign.
pub open spec fn exponent_digits_start(s: Seq<char>, p: int) -> int {
    if s[p + 1] == '+' || s[p + 1] == '-' {
        p + 2
    } else {
        p + 1
    }
}

/// The end of a decimal literal whose digits part ends at `m`.
pub open spec fn decimal_end(s: Seq<char>, m: int) -> int {
    if exponent_starts(s, m) {
        digits_end(s, exponent_digits_start(s, m))
    } else {
        m
    }
}

/// The result of reading a decimal literal at `p`: its text and end, or the
/// error message when Rust's float syntax rejects the text (more than one
/// decimal point, or an exponent without digits).
pub open spec fn lex_decimal(s: Seq<char>, p: int) -> Result<(NumberLitV, int), Seq<char>> {
    let m = mantissa_end(s, p);
    let mant = normalize_mantissa(s.subrange(p, m));
    let e = decimal_end(s, m);
    let text = mant + s.subrange(m, e);
    let exponent_ok = !exponent_starts(s, m) || e > exponent_digits_start(s, m);
    if count_dots(mant) <= 1 && exponent_ok {
        Ok((NumberLitV::Decimal(text), e))
    } else {
        Err("Invalid number literal: "@ + text)
    }
}

// ── Radix literals ─────────────────────────────────────────────────────────

/// Whether `c` is a digit in base `radix` (16, 2 or 8).
pub open spec fn is_radix_digit(c: char, radix: nat) -> bool {
    if radix == 16 {
        is_ascii_hexdigit_spec(c)
    } else if radix == 2 {
        c == '0' || c == '1'
    } else {
        '0' <= c && c <= '7'
    }
}

/// The value of a hexadecimal, binary or octal digit.
pub open spec fn digit_value(c: char) -> nat {
    if '0' <= c && c <= '9' {
        (c as nat - 48) as nat
    } else if 'a' <= c && c <= 'f' {
        (c as nat - 87) as nat
    } else if 'A' <= c && c <= 'F' {
        (c as nat - 55) as nat
    } else {
        0
    }
}

/// The hexadecimal digits in order of value.
pub open spec fn hex_digit_chars() -> Seq<char> {
    "0123456789abcdef"@
}

/// `c` with an upper-case ASCII letter made lower case.
pub open spec fn ascii_lower(c: char) -> char {
    if 'A' <= c && c <= 'Z' {
        ((c as u32) + 32) as char
    } else {
        c
    }
}

/// The value of a hexadecimal digit is its place in `0123456789abcdef`,
/// whatever the case of a letter digit; the digits of base 2 and 8 are
/// among them with the same values.
pub proof fn law_hex_digit_values(c: char)
    requires
        is_ascii_hexdigit_spec(c),
    ensures
        digit_value(c) < 16,
        hex_digit_chars()[digit_value(c) as int] == ascii_lower(c),
        digit_value(ascii_lower(c)) == digit_value(c),
{
    reveal_strlit("0123456789abcdef");
    if c == '0' {
    } else if c == '1' {
    } else if c == '2' {
    } else if c == '3' {
    } else if c == '4' {
    } else if c == '5' {
    } else if c == '6' {
    } else if c == '7' {
    } else if c == '8' {
    } else if c == '9' {
    } else if c == 'a' {
    } else if c == 'b' {
    } else if c == 'c' {
    } else if c == 'd' {
    } else if c == 'e' {
    } else if c == 'f' {
    } else if c == 'A' {
    } else if c == 'B' {
    } else if c == 'C' {
    } else if c == 'D' {
    } else if c == 'E' {
    } else if c == 'F' {
    }
}

/// The value of the digit string `d` in base `radix`.
pub open spec fn digits_value(d: Seq<char>, radix: nat) -> nat
    decreases d.len(),
{
    if d.len() == 0 {
        0
    } else {
        digits_value(d.drop_last(), radix) * radix + digit_value(d.last())
    }
}

/// The end of the digits (and `_` separators) of a radix literal from `p`.
pub open spec fn radix_end(s: Seq<char>, p: int, radix: nat) -> int
    decreases s.len() - p,
{
    if 0 <= p < s.len() && (is_radix_digit(s[p], radix) || s[p] == '_') {
        radix_end(s, p + 1, radix)
    } else {
        p
    }
}

/// `t` without its `_` separators.
pub open spec fn strip_underscores(t: Seq<char>) -> Seq<char>
    decreases t.len(),
{
    if t.len() == 0 {
        t
    } else if t.last() == '_' {
        strip_underscores(t.drop_last())
    } else {
        strip_underscores(t.drop_last()).push(t.last())
    }
}

/// The base that a prefix letter (`x`, `b`, `o`, either case) selects.
pub open spec fn radix_of_prefix(c: char) -> nat {
    if c == 'x' || c == 'X' {
        16
    } else if c == 'b' || c == 'B' {
        2
    } else {
        8
    }
}

/// Whether `c` is a radix prefix letter.
pub open spec fn is_radix_prefix(c: char) -> bool {
    c == 'x' || c == 'X' || c == 'b' || c == 'B' || c == 'o' || c == 'O'
}

/// The error message for a radix prefix with no digits after it.
pub open spec fn missing_digits_message(radix: nat) -> Seq<char> {
    if radix == 16 {
        "Expected hex digits after 0x"@
    } else if radix == 2 {
        "Expected binary digits after 0b"@
    } else {
        "Expected octal digits after 0o"@
    }
}

/// The start of the error message for a radix literal too large for `u64`.
pub open spec fn invalid_literal_prefix(radix: nat) -> Seq<char> {
    if radix == 16 {
        "Invalid hex literal: 0x"@
    } else if radix == 2 {
        "Invalid binary literal: 0b"@
    } else {
        "Invalid octal literal: 0o"@
    }
}

/// The result of reading a radix literal whose digits start at `p`: the
/// value when the digits fit in `u64`.
pub open spec fn lex_radix(s: Seq<char>, p: int, radix: nat) -> Result<(NumberLitV, int), Seq<char>> {
    let e = radix_end(s, p, radix);
    let d = strip_underscores(s.subrange(p, e));
    if d.len() == 0 {
        Err(missing_digits_message(radix))
    } else if digits_value(d, radix) > u64::MAX {
        Err(invalid_literal_prefix(radix) + d)
    } else {
        Ok((NumberLitV::Integer(digits_value(d, radix) as u64), e))
    }
}

/// The result of reading a number literal starting at `p`.
pub open spec fn lex_number(s: Seq<char>, p: int) -> Result<(NumberLitV, int), Seq<char>> {
    if s[p] == '0' && p + 1 < s.len() && is_radix_prefix(s[p + 1]) {
        lex_radix(s, p + 2, radix_of_prefix(s[p + 1]))
    } else {
        lex_decimal(s, p)
    }
}

// ── Tokens ─────────────────────────────────────────────────────────────────

/// A word as a keyword (`in`, `to`, `as`, `of`) or an identifier.
pub open spec fn classify_word(w: Seq<char>) -> TokenKindV {
    if w == "in"@ {
        TokenKindV::Keyword(Keyword::In)
    } else if w == "to"@ {
        TokenKindV::Keyword(Keyword::To)
    } else if w == "as"@ {
        TokenKindV::Keyword(Keyword::As)
    } else if w == "of"@ {
        TokenKindV::Keyword(Keyword::Of)
    } else {
        TokenKindV::Ident(w)
    }
}

/// The token of a one-character operator or delimiter.
pub open spec fn single_char_kind(c: char) -> Option<TokenKindV> {
    if c == '+' {
        Some(TokenKindV::Plus)
    } else if c == '-' {
        Some(TokenKindV::Minus)
    } else if c == '*' {
        Some(TokenKindV::Star)
    } else if c == '/' {
        Some(TokenKindV::Slash)
    } else if c == '%' {
        Some(TokenKindV::Percent)
    } else if c == '^' {
        Some(TokenKindV::Caret)
    } else if c == '=' {
        Some(TokenKindV::Eq)
    } else if c == '(' {
        Some(TokenKindV::LParen)
    } else if c == ')' {
        Some(TokenKindV::RParen)
    } else if c == ',' {
        Some(TokenKindV::Comma)
    } else if c == ':' {
        Some(TokenKindV::Colon)
    } else {
        None
    }
}

/// Whether a number literal starts at `q`: a digit, or `.` followed by a digit.
pub open spec fn starts_number(s: Seq<char>, q: int) -> bool {
    is_ascii_digit_spec(s[q]) || (s[q] == '.' && q + 1 < s.len() && is_ascii_digit_spec(s[q + 1]))
}

/// Whether a word starts at `q`: a letter, `_`, or the degree sign.
pub open spec fn starts_word(s: Seq<char>, q: int) -> bool {
    is_letter(s[q]) || s[q] == '_' || s[q] == '°'
}

/// The word starting at `q` and its end: `°` with a following `C` or `F`, or
/// an identifier run.
pub open spec fn word_at(s: Seq<char>, q: int) -> (Seq<char>, int) {
    if s[q] == '°' {
        if q + 1 < s.len() && (s[q + 1] == 'C' || s[q + 1] == 'F') {
            (seq!['°', s[q + 1]], q + 2)
        } else {
            (seq!['°'], q + 1)
        }
    } else {
        (s.subrange(q, ident_end(s, q + 1)), ident_end(s, q + 1))
    }
}

/// The token kind found at `q` (which is not a blank) and where the next
/// token search starts, or the error found there.
pub open spec fn lex_step(s: Seq<char>, q: int) -> Result<(TokenKindV, int), CalcErrorV> {
    let c = s[q];
    if c == '\n' {
        Ok((TokenKindV::Newline, q + 1))
    } else if c == '#' {
        Ok((TokenKindV::Comment(s.subrange(q + 1, line_end(s, q + 1))), line_end(s, q + 1)))
    } else if c == '/' && q + 1 < s.len() && s[q + 1] == '/' {
        Ok((TokenKindV::Comment(s.subrange(q + 2, line_end(s, q + 2))), line_end(s, q + 2)))
    } else if starts_number(s, q) {
        match lex_number(s, q) {
            Ok((lit, e)) => Ok((TokenKindV::Number(lit), e)),
            Err(m) => Err(CalcErrorV { message: m, line: line_at(s, q), col: col_at(s, q) }),
        }
    } else if starts_word(s, q) {
        Ok((classify_word(word_at(s, q).0), word_at(s, q).1))
    } else {
        match single_char_kind(c) {
            Some(k) => Ok((k, q + 1)),
            None => Err(
                CalcErrorV {
                    message: "Unexpected character: "@ + char_shown(c),
                    line: line_at(s, q),
                    col: col_at(s, q),
                },
            ),
        }
    }
}

/// `ts` in front of the tokens of a successful lexing result.
pub open spec fn prepend_tokens(ts: Seq<TokenV>, r: Result<Seq<TokenV>, CalcErrorV>) -> Result<
    Seq<TokenV>,
    CalcErrorV,
> {
    match r {
        Ok(rest) => Ok(ts + rest),
        Err(e) => Err(e),
    }
}

/// The tokens of `s` from index `p` on, ending with `Eof`, or the first error.
pub open spec fn lex_from(s: Seq<char>, p: int) -> Result<Seq<TokenV>, CalcErrorV>
    decreases s.len() - p,
{
    let q = skip_blanks(s, p);
    if q < 0 || q >= s.len() {
        Ok(seq![TokenV { kind: TokenKindV::Eof, line: line_at(s, q), col: col_at(s, q) }])
    } else {
        match lex_step(s, q) {
            Err(e) => Err(e),
            Ok((k, n)) => if p < n <= s.len() {
                prepend_tokens(
                    seq![TokenV { kind: k, line: line_at(s, q), col: col_at(s, q) }],
                    lex_from(s, n),
                )
            } else {
                Err(CalcErrorV { message: seq![], line: 0, col: 0 })
            },
        }
    }
}

/// Every token but the end marker leaves room for a column after it.
pub open spec fn columns_fit(t: Seq<TokenV>) -> bool {
    forall|i: int| 0 <= i < t.len() && !(#[trigger] t[i].kind is Eof) ==> t[i].col < usize::MAX
}

/// The tokens of a whole document.
pub open spec fn lex_document(s: Seq<char>) -> Result<Seq<TokenV>, CalcErrorV> {
    lex_from(s, 0)
}

// ── The lexer ──────────────────────────────────────────────────────────────

/// A cursor over the characters of a document.
pub struct Lexer {
    chars: Vec<char>,
    pos: usize,
    line: usize,
    col: usize,
}

impl Lexer {
    /// The characters being lexed.
    pub closed spec fn input(&self) -> Seq<char> {
        self.chars@
    }

    /// The index of the next character.
    pub closed spec fn position(&self) -> int {
        self.pos as int
    }

    /// The position bookkeeping agrees with the characters consumed so far.
    pub closed spec fn wf(&self) -> bool {
        &&& self.pos <= self.chars.len()
        &&& self.chars.len() < usize::MAX
        &&& self.line == line_at(self.chars@, self.pos as int)
        &&& self.col == col_at(self.chars@, self.pos as int)
        &&& 1 <= self.line <= self.pos + 1
        &&& 1 <= self.col <= self.pos + 1
    }

    /// A lexer at the start of `input`.
    pub fn new(input: &str) -> (r: Self)
        requires
            input@.len() < usize::MAX,
        ensures
            r.wf(),
            r.input() == input@,
            r.position() == 0,
    {
        Lexer { chars: chars_of(input), pos: 0, line: 1, col: 1 }
    }

    fn peek(&self) -> (r: Option<char>)
        requires
            self.wf(),
        ensures
            r == if self.pos < self.chars.len() {
                Some(self.chars@[self.pos as int])
            } else {
                None::<char>
            },
    {
        if self.pos < self.chars.len() {
            Some(self.chars[self.pos])
        } else {
            None
        }
    }

    fn peek_at(&self, offset: usize) -> (r: Option<char>)
        requires
            self.wf(),
            offset <= 1,
        ensures
            r == if self.pos + offset < self.chars.len() {
                Some(self.chars@[self.pos + offset])
            } else {
                None::<char>
            },
    {
        let i = self.pos + offset;
        if i < self.chars.len() {
            Some(self.chars[i])
        } else {
            None
        }
    }

    fn advance(&mut self) -> (r: Option<char>)
        requires
            old(self).wf(),
        ensures
            final(self).wf(),
            final(self).chars@ == old(self).chars@,
            old(self).pos < old(self).chars.len() ==> final(self).pos == old(self).pos + 1 && r
                == Some(old(self).chars@[old(self).pos as int]),
            old(self).pos >= old(self).chars.len() ==> final(self).pos == old(self).pos && r
                == None::<char>,
    {
        if self.pos >= self.chars.len() {
            return None;
        }
        let ch = self.chars[self.pos];
        self.pos = self.pos + 1;
        if ch == '\n' {
            self.line = self.line + 1;
            self.col = 1;
        } else {
            self.col = self.col + 1;
        }
        Some(ch)
    }

    fn skip_whitespace(&mut self)
        requires
            old(self).wf(),
        ensures
            final(self).wf(),
            final(self).chars@ == old(self).chars@,
            final(self).pos == skip_blanks(old(self).chars@, old(self).pos as int),
    {
        loop
            invariant
                self.wf(),
                self.chars@ == old(self).chars@,
                old(self).pos <= self.pos,
                skip_blanks(self.chars@, self.pos as int) == skip_blanks(
                    old(self).chars@,
                    old(self).pos as int,
                ),
            decreases self.chars.len() - self.pos,
        {
            match self.peek() {
                Some(ch) => {
                    if ch == ' ' || ch == '\t' || ch == '\r' {
                        self.advance();
                    } else {
                        return;
                    }
                },
                None => {
                    return;
                },
            }
        }
    }

    fn current_pos(&self) -> (r: (usize, usize))
        ensures
            r == (self.line, self.col),
    {
        (self.line, self.col)
    }

    fn read_line_comment(&mut self) -> (r: String)
        requires
            old(self).wf(),
        ensures
            final(self).wf(),
            final(self).chars@ == old(self).chars@,
            final(self).pos == line_end(old(self).chars@, old(self).pos as int),
            r@ == old(self).chars@.subrange(old(self).pos as int, final(self).pos as int),
    {
        let mut s = String::new();
        let ghost start = self.pos as int;
        loop
            invariant
                self.wf(),
                self.chars@ == old(self).chars@,
                start == old(self).pos,
                start <= self.pos,
                line_end(self.chars@, self.pos as int) == line_end(self.chars@, start),
                s@ == self.chars@.subrange(start, self.pos as int),
            decreases self.chars.len() - self.pos,
        {
            match self.peek() {
                Some(ch) => {
                    if ch == '\n' {
                        return s;
                    }
                    push_char(&mut s, ch);
                    assert(self.chars@.subrange(start, self.pos + 1) == self.chars@.subrange(
                        start,
                        self.pos as int,
                    ).push(ch));
                    self.advance();
                },
                None => {
                    return s;
                },
            }
        }
    }

    fn read_ident(&mut self) -> (r: String)
        requires
            old(self).wf(),
        ensures
            final(self).wf(),
            final(self).chars@ == old(self).chars@,
            final(self).pos == ident_end(old(self).chars@, old(self).pos as int),
            r@ == old(self).chars@.subrange(old(self).pos as int, final(self).pos as int),
    {
        let mut s = String::new();
        let ghost start = self.pos as int;
        loop
            invariant
                self.wf(),
                self.chars@ == old(self).chars@,
                start == old(self).pos,
                start <= self.pos,
                ident_end(self.chars@, self.pos as int) == ident_end(self.chars@, start),
                s@ == self.chars@.subrange(start, self.pos as int),
            decreases self.chars.len() - self.pos,
        {
            match self.peek() {
                Some(ch) => {
                    if is_alphanumeric(ch) || ch == '_' {
                        push_char(&mut s, ch);
                        assert(self.chars@.subrange(start, self.pos + 1) == self.chars@.subrange(
                            start,
                            self.pos as int,
                        ).push(ch));
                        self.advance();
                    } else {
                        return s;
                    }
                },
                None => {
                    return s;
                },
            }
        }
    }
}


// ── Number literals ────────────────────────────────────────────────────────

proof fn lemma_digits_value_monotone(d: Seq<char>, radix: nat, i: int, j: int)
    requires
        radix >= 2,
        0 <= i <= j <= d.len(),
    ensures
        digits_value(d.take(i), radix) <= digits_value(d.take(j), radix),
    decreases j - i,
{
    if i < j {
        lemma_digits_value_monotone(d, radix, i, j - 1);
        assert(d.take(j).drop_last() == d.take(j - 1));
        let v = digits_value(d.take(j - 1), radix);
        assert(v * radix >= v) by (nonlinear_arith)
            requires
                radix >= 2,
        ;
    }
}

fn is_radix_digit_exec(c: char, radix: u64) -> (r: bool)
    requires
        radix == 16 || radix == 2 || radix == 8,
    ensures
        r == is_radix_digit(c, radix as nat),
{
    if radix == 16 {
        is_ascii_hexdigit(c)
    } else if radix == 2 {
        c == '0' || c == '1'
    } else {
        '0' <= c && c <= '7'
    }
}

fn digit_value_exec(c: char) -> (r: u64)
    requires
        is_ascii_hexdigit_spec(c),
    ensures
        r == digit_value(c),
        r < 16,
{
    if '0' <= c && c <= '9' {
        (c as u64) - 48
    } else if 'a' <= c && c <= 'f' {
        (c as u64) - 87
    } else {
        (c as u64) - 55
    }
}

/// The value of the digit string `d` in base `radix`, or `None` when it
/// exceeds `u64::MAX` (what `u64::from_str_radix` answers on such digits).
fn radix_value(d: &Vec<char>, radix: u64) -> (r: Option<u64>)
    requires
        radix == 16 || radix == 2 || radix == 8,
        forall|k: int| 0 <= k < d@.len() ==> is_radix_digit(#[trigger] d@[k], radix as nat),
    ensures
        digits_value(d@, radix as nat) <= u64::MAX ==> r == Some(
            digits_value(d@, radix as nat) as u64,
        ),
        digits_value(d@, radix as nat) > u64::MAX ==> r is None,
{
    let mut v: u64 = 0;
    let mut i: usize = 0;
    while i < d.len()
        invariant
            radix == 16 || radix == 2 || radix == 8,
            forall|k: int| 0 <= k < d@.len() ==> is_radix_digit(#[trigger] d@[k], radix as nat),
            i <= d.len(),
            v == digits_value(d@.take(i as int), radix as nat),
        decreases d.len() - i,
    {
        let c = d[i];
        assert(is_radix_digit(d@[i as int], radix as nat));
        let dv = digit_value_exec(c);
        assert(d@.take(i + 1).drop_last() == d@.take(i as int));
        match v.checked_mul(radix) {
            Some(m) => match m.checked_add(dv) {
                Some(n) => {
                    v = n;
                },
                None => {
                    proof {
                        lemma_digits_value_monotone(d@, radix as nat, i + 1, d@.len() as int);
                        assert(d@.take(d@.len() as int) == d@);
                    }
                    return None;
                },
            },
            None => {
                proof {
                    assert(digit_value(d@[i as int]) >= 0);
                    lemma_digits_value_monotone(d@, radix as nat, i + 1, d@.len() as int);
                    assert(d@.take(d@.len() as int) == d@);
                }
                return None;
            },
        }
        i = i + 1;
    }
    assert(d@.take(d@.len() as int) == d@);
    Some(v)
}

impl Lexer {
    fn read_radix_digits(&mut self, radix: u64) -> (r: Vec<char>)
        requires
            old(self).wf(),
            radix == 16 || radix == 2 || radix == 8,
        ensures
            final(self).wf(),
            final(self).chars@ == old(self).chars@,
            final(self).pos == radix_end(old(self).chars@, old(self).pos as int, radix as nat),
            r@ == strip_underscores(
                old(self).chars@.subrange(old(self).pos as int, final(self).pos as int),
            ),
            forall|k: int| 0 <= k < r@.len() ==> is_radix_digit(#[trigger] r@[k], radix as nat),
    {
        let mut d: Vec<char> = Vec::new();
        let ghost start = self.pos as int;
        loop
            invariant
                self.wf(),
                self.chars@ == old(self).chars@,
                start == old(self).pos,
                start <= self.pos,
                radix == 16 || radix == 2 || radix == 8,
                radix_end(self.chars@, self.pos as int, radix as nat) == radix_end(
                    self.chars@,
                    start,
                    radix as nat,
                ),
                d@ == strip_underscores(self.chars@.subrange(start, self.pos as int)),
                forall|k: int| 0 <= k < d@.len() ==> is_radix_digit(#[trigger] d@[k], radix as nat),
            decreases self.chars.len() - self.pos,
        {
            match self.peek() {
                Some(ch) => {
                    if is_radix_digit_exec(ch, radix) || ch == '_' {
                        assert(self.chars@.subrange(start, self.pos + 1).drop_last()
                            == self.chars@.subrange(start, self.pos as int));
                        if ch != '_' {
                            d.push(ch);
                        }
                        self.advance();
                    } else {
                        return d;
                    }
                },
                None => {
                    return d;
                },
            }
        }
    }

    fn read_radix(&mut self, radix: u64, line: usize, col: usize) -> (r: Result<NumberLit, CalcError>)
        requires
            old(self).wf(),
            radix == 16 || radix == 2 || radix == 8,
        ensures
            final(self).wf(),
            final(self).chars@ == old(self).chars@,
            match lex_radix(old(self).chars@, old(self).pos as int, radix as nat) {
                Ok((lit, e)) => r matches Ok(n) && n@ == lit && final(self).pos == e,
                Err(m) => r matches Err(err) && err@ == CalcErrorV {
                    message: m,
                    line: line as nat,
                    col: col as nat,
                },
            },
    {
        let d = self.read_radix_digits(radix);
        if d.len() == 0 {
            let m = if radix == 16 {
                String::from_str("Expected hex digits after 0x")
            } else if radix == 2 {
                String::from_str("Expected binary digits after 0b")
            } else {
                String::from_str("Expected octal digits after 0o")
            };
            return Err(CalcError::new(m, line, col));
        }
        match radix_value(&d, radix) {
            Some(v) => Ok(NumberLit::Integer(v)),
            None => {
                let ds = string_from_chars(d.as_slice());
                let m = if radix == 16 {
                    concat_str("Invalid hex literal: 0x", ds.as_str())
                } else if radix == 2 {
                    concat_str("Invalid binary literal: 0b", ds.as_str())
                } else {
                    concat_str("Invalid octal literal: 0o", ds.as_str())
                };
                Err(CalcError::new(m, line, col))
            },
        }
    }

    fn read_hex(&mut self, line: usize, col: usize) -> (r: Result<NumberLit, CalcError>)
        requires
            old(self).wf(),
        ensures
            final(self).wf(),
            final(self).chars@ == old(self).chars@,
            match lex_radix(old(self).chars@, old(self).pos as int, 16) {
                Ok((lit, e)) => r matches Ok(n) && n@ == lit && final(self).pos == e,
                Err(m) => r matches Err(err) && err@ == CalcErrorV {
                    message: m,
                    line: line as nat,
                    col: col as nat,
                },
            },
    {
        self.read_radix(16, line, col)
    }

    fn read_binary(&mut self, line: usize, col: usize) -> (r: Result<NumberLit, CalcError>)
        requires
            old(self).wf(),
        ensures
            final(self).wf(),
            final(self).chars@ == old(self).chars@,
            match lex_radix(old(self).chars@, old(self).pos as int, 2) {
                Ok((lit, e)) => r matches Ok(n) && n@ == lit && final(self).pos == e,
                Err(m) => r matches Err(err) && err@ == CalcErrorV {
                    message: m,
                    line: line as nat,
                    col: col as nat,
                },
            },
    {
        self.read_radix(2, line, col)
    }

    fn read_octal(&mut self, line: usize, col: usize) -> (r: Result<NumberLit, CalcError>)
        requires
            old(self).wf(),
        ensures
            final(self).wf(),
            final(self).chars@ == old(self).chars@,
            match lex_radix(old(self).chars@, old(self).pos as int, 8) {
                Ok((lit, e)) => r matches Ok(n) && n@ == lit && final(self).pos == e,
                Err(m) => r matches Err(err) && err@ == CalcErrorV {
                    message: m,
                    line: line as nat,
                    col: col as nat,
                },
            },
    {
        self.read_radix(8, line, col)
    }

    fn read_number(&mut self) -> (r: Result<NumberLit, CalcError>)
        requires
            old(self).wf(),
            old(self).pos < old(self).chars.len(),
            starts_number(old(self).chars@, old(self).pos as int),
        ensures
            final(self).wf(),
            final(self).chars@ == old(self).chars@,
            match lex_number(old(self).chars@, old(self).pos as int) {
                Ok((lit, e)) => r matches Ok(n) && n@ == lit && final(self).pos == e,
                Err(m) => r matches Err(err) && err@ == CalcErrorV {
                    message: m,
                    line: line_at(old(self).chars@, old(self).pos as int),
                    col: col_at(old(self).chars@, old(self).pos as int),
                },
            },
    {
        let start_line = self.line;
        let start_col = self.col;
        let ghost s = self.chars@;
        let ghost p = self.pos as int;
        let first = self.chars[self.pos];
        if first == '0' {
            match self.peek_at(1) {
                Some(next) => {
                    if next == 'x' || next == 'X' {
                        self.advance();
                        self.advance();
                        return self.read_hex(start_line, start_col);
                    } else if next == 'b' || next == 'B' {
                        self.advance();
                        self.advance();
                        return self.read_binary(start_line, start_col);
                    } else if next == 'o' || next == 'O' {
                        self.advance();
                        self.advance();
                        return self.read_octal(start_line, start_col);
                    }
                },
                None => {},
            }
        }
        // Decimal digits, `.`, decimal commas and `_` separators.
        let mut text: Vec<char> = Vec::new();
        let mut dots: usize = 0;
        loop
            invariant
                self.wf(),
                self.chars@ == s,
                0 <= p <= self.pos,
                dots <= self.pos,
                mantissa_end(s, self.pos as int) == mantissa_end(s, p),
                text@ == normalize_mantissa(s.subrange(p, self.pos as int)),
                dots == count_dots(text@),
            ensures
                self.wf(),
                self.chars@ == s,
                self.pos == mantissa_end(s, p),
                text@ == normalize_mantissa(s.subrange(p, self.pos as int)),
                dots == count_dots(text@),
            decreases self.chars.len() - self.pos,
        {
            match self.peek() {
                Some(ch) => {
                    let comma_sep = ch == ',' && match self.peek_at(1) {
                        Some(c) => is_ascii_digit(c),
                        None => false,
                    };
                    if is_ascii_digit(ch) || ch == '.' || comma_sep || ch == '_' {
                        assert(self.pos < s.len());
                        assert(ch == s[self.pos as int]);
                        assert(s.subrange(p, self.pos + 1) =~= s.subrange(p, self.pos as int).push(ch));
                        assert(s.subrange(p, self.pos + 1).drop_last() =~= s.subrange(p, self.pos as int));
                        assert(s.subrange(p, self.pos + 1).last() == ch);
                        let ghost before = text@;
                        if ch == '.' || ch == ',' {
                            text.push('.');
                            assert(text@.drop_last() == before);
                            dots = dots + 1;
                        } else if ch != '_' {
                            text.push(ch);
                            assert(text@.drop_last() == before);
                        }
                        self.advance();
                    } else {
                        break;
                    }
                },
                None => {
                    break;
                },
            }
        }
        let ghost m = self.pos as int;
        let ghost mant = text@;
        // Optional exponent: `e`/`E`, then a sign or a digit.
        let mut exponent_ok = true;
        let mut is_sci = false;
        match self.peek() {
            Some(e) => {
                if e == 'e' || e == 'E' {
                    match self.peek_at(1) {
                        Some(nx) => {
                            is_sci = nx == '+' || nx == '-' || is_ascii_digit(nx);
                        },
                        None => {},
                    }
                }
            },
            None => {},
        }
        if is_sci {
            let e = self.chars[self.pos];
            text.push(e);
            self.advance();
            let sg = self.chars[self.pos];
            if sg == '+' || sg == '-' {
                text.push(sg);
                self.advance();
            }
            assert(text@ == mant + s.subrange(m, self.pos as int));
            let ds_exec = self.pos;
            let ghost ds = self.pos as int;
            assert(ds == exponent_digits_start(s, m));
            loop
                invariant
                    self.wf(),
                    self.chars@ == s,
                    0 <= m <= ds <= self.pos,
                    digits_end(s, self.pos as int) == digits_end(s, ds),
                    text@ == mant + s.subrange(m, self.pos as int),
                ensures
                    self.wf(),
                    self.chars@ == s,
                    self.pos == digits_end(s, ds),
                    text@ == mant + s.subrange(m, self.pos as int),
                decreases self.chars.len() - self.pos,
            {
                match self.peek() {
                    Some(d) => {
                        if is_ascii_digit(d) {
                            text.push(d);
                            assert(self.pos < s.len());
                            assert(s.subrange(m, self.pos + 1) =~= s.subrange(m, self.pos as int).push(d));
                            self.advance();
                        } else {
                            break;
                        }
                    },
                    None => {
                        break;
                    },
                }
            }
            exponent_ok = self.pos > ds_exec;
        } else {
            assert(s.subrange(m, m) == Seq::<char>::empty());
            assert(text@ == mant + s.subrange(m, self.pos as int));
        }
        let t = string_from_chars(text.as_slice());
        if dots <= 1 && exponent_ok {
            Ok(NumberLit::Decimal(t))
        } else {
            let msg = concat_str("Invalid number literal: ", t.as_str());
            Err(CalcError::new(msg, start_line, start_col))
        }
    }
}


// ── Progress facts about the character runs ────────────────────────────────

pub(crate) proof fn lemma_line_end_bounds(s: Seq<char>, p: int)
    requires
        0 <= p <= s.len(),
    ensures
        p <= line_end(s, p) <= s.len(),
    decreases s.len() - p,
{
    if p < s.len() && s[p] != '\n' {
        lemma_line_end_bounds(s, p + 1);
    }
}

pub(crate) proof fn lemma_ident_end_bounds(s: Seq<char>, p: int)
    requires
        0 <= p <= s.len(),
    ensures
        p <= ident_end(s, p) <= s.len(),
    decreases s.len() - p,
{
    if p < s.len() && is_ident_char(s[p]) {
        lemma_ident_end_bounds(s, p + 1);
    }
}

pub(crate) proof fn lemma_digits_end_bounds(s: Seq<char>, p: int)
    requires
        0 <= p <= s.len(),
    ensures
        p <= digits_end(s, p) <= s.len(),
    decreases s.len() - p,
{
    if p < s.len() && is_ascii_digit_spec(s[p]) {
        lemma_digits_end_bounds(s, p + 1);
    }
}

pub(crate) proof fn lemma_mantissa_end_bounds(s: Seq<char>, p: int)
    requires
        0 <= p <= s.len(),
    ensures
        p <= mantissa_end(s, p) <= s.len(),
    decreases s.len() - p,
{
    if p < s.len() && continues_mantissa(s, p) {
        lemma_mantissa_end_bounds(s, p + 1);
    }
}

pub(crate) proof fn lemma_radix_end_bounds(s: Seq<char>, p: int, radix: nat)
    requires
        0 <= p <= s.len(),
    ensures
        p <= radix_end(s, p, radix) <= s.len(),
    decreases s.len() - p,
{
    if p < s.len() && (is_radix_digit(s[p], radix) || s[p] == '_') {
        lemma_radix_end_bounds(s, p + 1, radix);
    }
}

pub(crate) proof fn lemma_skip_blanks_bounds(s: Seq<char>, p: int)
    requires
        0 <= p <= s.len(),
    ensures
        p <= skip_blanks(s, p) <= s.len(),
    decreases s.len() - p,
{
    if p < s.len() && is_blank(s[p]) {
        lemma_skip_blanks_bounds(s, p + 1);
    }
}

/// Reading a number at `q` consumes at least one character and stays in `s`.
proof fn lemma_lex_number_progress(s: Seq<char>, q: int)
    requires
        0 <= q < s.len(),
        starts_number(s, q),
    ensures
        lex_number(s, q) matches Ok((_, e)) ==> q < e <= s.len(),
{
    if s[q] == '0' && q + 1 < s.len() && is_radix_prefix(s[q + 1]) {
        lemma_radix_end_bounds(s, q + 2, radix_of_prefix(s[q + 1]));
    } else {
        assert(continues_mantissa(s, q));
        lemma_mantissa_end_bounds(s, q + 1);
        let m = mantissa_end(s, q);
        if exponent_starts(s, m) {
            lemma_digits_end_bounds(s, exponent_digits_start(s, m));
        }
    }
}

/// Every token step consumes at least one character and stays in `s`.
pub proof fn lemma_lex_step_progress(s: Seq<char>, q: int)
    requires
        0 <= q < s.len(),
    ensures
        lex_step(s, q) matches Ok((_, n)) ==> q < n <= s.len(),
{
    lemma_line_end_bounds(s, q + 1);
    if q + 2 <= s.len() {
        lemma_line_end_bounds(s, q + 2);
    }
    lemma_ident_end_bounds(s, q + 1);
    if starts_number(s, q) {
        lemma_lex_number_progress(s, q);
    }
}


// ── Line counts ────────────────────────────────────────────────────────────

/// The number of lines of `s`: one more than its line feeds.
pub open spec fn line_count(s: Seq<char>) -> nat {
    line_at(s, s.len() as int)
}

/// The number of `Newline` tokens in `t`.
pub open spec fn newline_count(t: Seq<TokenV>) -> nat
    decreases t.len(),
{
    if t.len() == 0 {
        0
    } else {
        newline_count(t.drop_first()) + if t[0].kind is Newline { 1nat } else { 0nat }
    }
}

/// With no line feed in `[a, b)`, index `b` is on the line of index `a`.
pub(crate) proof fn lemma_same_line(s: Seq<char>, a: int, b: int)
    requires
        0 <= a <= b <= s.len(),
        forall|i: int| a <= i < b ==> #[trigger] s[i] != '\n',
    ensures
        line_at(s, b) == line_at(s, a),
    decreases b - a,
{
    if a < b {
        lemma_same_line(s, a, b - 1);
    }
}

proof fn lemma_line_end_no_feed(s: Seq<char>, p: int)
    requires
        0 <= p <= s.len(),
    ensures
        forall|i: int| p <= i < line_end(s, p) ==> #[trigger] s[i] != '\n',
    decreases s.len() - p,
{
    if p < s.len() && s[p] != '\n' {
        lemma_line_end_no_feed(s, p + 1);
    }
}

proof fn lemma_ident_end_no_feed(s: Seq<char>, p: int)
    requires
        0 <= p <= s.len(),
    ensures
        forall|i: int| p <= i < ident_end(s, p) ==> #[trigger] s[i] != '\n',
    decreases s.len() - p,
{
    if p < s.len() && is_ident_char(s[p]) {
        lemma_ident_end_no_feed(s, p + 1);
    }
}

proof fn lemma_digits_end_no_feed(s: Seq<char>, p: int)
    requires
        0 <= p <= s.len(),
    ensures
        forall|i: int| p <= i < digits_end(s, p) ==> #[trigger] s[i] != '\n',
    decreases s.len() - p,
{
    if p < s.len() && is_ascii_digit_spec(s[p]) {
        lemma_digits_end_no_feed(s, p + 1);
    }
}

proof fn lemma_mantissa_end_no_feed(s: Seq<char>, p: int)
    requires
        0 <= p <= s.len(),
    ensures
        forall|i: int| p <= i < mantissa_end(s, p) ==> #[trigger] s[i] != '\n',
    decreases s.len() - p,
{
    if p < s.len() && continues_mantissa(s, p) {
        lemma_mantissa_end_no_feed(s, p + 1);
    }
}

proof fn lemma_radix_end_no_feed(s: Seq<char>, p: int, radix: nat)
    requires
        0 <= p <= s.len(),
    ensures
        forall|i: int| p <= i < radix_end(s, p, radix) ==> #[trigger] s[i] != '\n',
    decreases s.len() - p,
{
    if p < s.len() && (is_radix_digit(s[p], radix) || s[p] == '_') {
        lemma_radix_end_no_feed(s, p + 1, radix);
    }
}

pub(crate) proof fn lemma_skip_blanks_no_feed(s: Seq<char>, p: int)
    requires
        0 <= p <= s.len(),
    ensures
        forall|i: int| p <= i < skip_blanks(s, p) ==> #[trigger] s[i] != '\n',
    decreases s.len() - p,
{
    if p < s.len() && is_blank(s[p]) {
        lemma_skip_blanks_no_feed(s, p + 1);
    }
}

/// A token step moves to the next line exactly when it reads a `Newline`,
/// and it never yields the end marker.
pub(crate) proof fn lemma_lex_step_lines(s: Seq<char>, q: int)
    requires
        0 <= q < s.len(),
        lex_step(s, q) is Ok,
    ensures
        lex_step(s, q) matches Ok((k, n)) && !(k is Eof) && line_at(s, n) == line_at(s, q) + (
        if k is Newline {
            1nat
        } else {
            0nat
        }),
{
    lemma_lex_step_progress(s, q);
    let (k, n) = lex_step(s, q)->Ok_0;
    let c = s[q];
    if c == '\n' {
    } else if c == '#' {
        lemma_line_end_no_feed(s, q + 1);
        lemma_same_line(s, q, n);
    } else if c == '/' && q + 1 < s.len() && s[q + 1] == '/' {
        lemma_line_end_no_feed(s, q + 2);
        lemma_same_line(s, q, n);
    } else if starts_number(s, q) {
        if s[q] == '0' && q + 1 < s.len() && is_radix_prefix(s[q + 1]) {
            lemma_radix_end_no_feed(s, q + 2, radix_of_prefix(s[q + 1]));
        } else {
            lemma_mantissa_end_no_feed(s, q);
            lemma_mantissa_end_bounds(s, q);
            let m = mantissa_end(s, q);
            if exponent_starts(s, m) {
                lemma_digits_end_no_feed(s, exponent_digits_start(s, m));
            }
        }
        lemma_same_line(s, q, n);
    } else if starts_word(s, q) {
        if s[q] != '°' {
            lemma_ident_end_no_feed(s, q + 1);
        }
        lemma_same_line(s, q, n);
    } else {
        lemma_same_line(s, q, n);
    }
}

/// A successful lexing from `p` ends with the one end marker, and holds one
/// `Newline` per line feed from `p` on.
pub proof fn lemma_lex_from_lines(s: Seq<char>, p: int)
    requires
        0 <= p <= s.len(),
        lex_from(s, p) is Ok,
    ensures
        lex_from(s, p) matches Ok(ts) && ts.len() >= 1 && ts.last().kind is Eof && (forall|i: int|
            0 <= i < ts.len() - 1 ==> !(#[trigger] ts[i].kind is Eof)) && newline_count(ts)
            + line_at(s, p) == line_count(s),
    decreases s.len() - p,
{
    let q = skip_blanks(s, p);
    lemma_skip_blanks_bounds(s, p);
    lemma_skip_blanks_no_feed(s, p);
    lemma_same_line(s, p, q);
    let ts = lex_from(s, p)->Ok_0;
    if q >= s.len() {
        assert(newline_count(ts.drop_first()) == 0) by {
            assert(ts.drop_first() =~= Seq::<TokenV>::empty());
        }
    } else {
        lemma_lex_step_lines(s, q);
        lemma_lex_step_progress(s, q);
        let (k, n) = lex_step(s, q)->Ok_0;
        lemma_lex_from_lines(s, n);
        let rest = lex_from(s, n)->Ok_0;
        let tok = TokenV { kind: k, line: line_at(s, q), col: col_at(s, q) };
        assert(ts == seq![tok] + rest);
        assert(ts.drop_first() =~= rest);
        assert forall|i: int| 0 <= i < ts.len() - 1 implies !(#[trigger] ts[i].kind is Eof) by {
            if i > 0 {
                assert(ts[i] == rest[i - 1]);
            }
        }
    }
}

proof fn lemma_newline_count_push(t: Seq<TokenV>, x: TokenV)
    ensures
        newline_count(t.push(x)) == newline_count(t) + if x.kind is Newline { 1nat } else { 0nat },
    decreases t.len(),
{
    if t.len() > 0 {
        lemma_newline_count_push(t.drop_first(), x);
        assert(t.push(x).drop_first() =~= t.drop_first().push(x));
        assert(t.push(x)[0] == t[0]);
    } else {
        assert(t.push(x).drop_first() =~= Seq::<TokenV>::empty());
        assert(newline_count(Seq::<TokenV>::empty()) == 0);
        assert(t.push(x)[0] == x);
    }
}

/// The count of `Newline` tokens among the first `j + 1` tokens grows by one
/// exactly when token `j` is a `Newline`.
pub proof fn lemma_newline_count_step(t: Seq<TokenV>, j: int)
    requires
        0 <= j < t.len(),
    ensures
        newline_count(t.take(j + 1)) == newline_count(t.take(j)) + if t[j].kind is Newline {
            1nat
        } else {
            0nat
        },
{
    assert(t.take(j + 1) =~= t.take(j).push(t[j]));
    lemma_newline_count_push(t.take(j), t[j]);
}

/// Each token of a successful lexing from `p` carries the line it was read
/// on: the line of `p` plus the `Newline` tokens before it.
pub proof fn lemma_lex_from_token_lines(s: Seq<char>, p: int)
    requires
        0 <= p <= s.len(),
        lex_from(s, p) is Ok,
    ensures
        lex_from(s, p) matches Ok(ts) && forall|j: int|
            0 <= j < ts.len() ==> #[trigger] ts[j].line == line_at(s, p) + newline_count(ts.take(j)),
    decreases s.len() - p,
{
    let q = skip_blanks(s, p);
    lemma_skip_blanks_bounds(s, p);
    lemma_skip_blanks_no_feed(s, p);
    lemma_same_line(s, p, q);
    let ts = lex_from(s, p)->Ok_0;
    if q >= s.len() {
        assert(ts.take(0) =~= Seq::<TokenV>::empty());
    } else {
        lemma_lex_step_lines(s, q);
        lemma_lex_step_progress(s, q);
        let (k, n) = lex_step(s, q)->Ok_0;
        lemma_lex_from_token_lines(s, n);
        let rest = lex_from(s, n)->Ok_0;
        let tok = TokenV { kind: k, line: line_at(s, q), col: col_at(s, q) };
        assert(ts == seq![tok] + rest);
        assert forall|j: int| 0 <= j < ts.len() implies #[trigger] ts[j].line == line_at(s, p)
            + newline_count(ts.take(j)) by {
            if j == 0 {
                assert(ts.take(0) =~= Seq::<TokenV>::empty());
            } else {
                assert(ts[j] == rest[j - 1]);
                assert(ts.take(j).drop_first() =~= rest.take(j - 1));
                assert(ts.take(j)[0] == tok);
            }
        }
    }
}

proof fn lemma_position_positive(s: Seq<char>, p: int)
    ensures
        line_at(s, p) >= 1,
        col_at(s, p) >= 1,
    decreases p,
{
    if p > 0 {
        lemma_position_positive(s, p - 1);
    }
}

/// Token `t` was read starting at index `q` of `s`: `q` holds its first
/// character (not a blank), the token step there yields its kind, and `t`
/// carries the line and column of `q`.
pub open spec fn token_starts_at(s: Seq<char>, t: TokenV, q: int) -> bool {
    &&& 0 <= q < s.len()
    &&& !is_blank(s[q])
    &&& lex_step(s, q) matches Ok((k, _)) && k == t.kind
    &&& t.line == line_at(s, q)
    &&& t.col == col_at(s, q)
}

/// Every token of `ts` but the last was read starting at an index of `s`
/// at or after `p`, and the last carries the line and column of the end of
/// `s`.
pub open spec fn tokens_placed(s: Seq<char>, p: int, ts: Seq<TokenV>) -> bool {
    &&& ts.len() >= 1
    &&& ts.last().line == line_at(s, s.len() as int)
    &&& ts.last().col == col_at(s, s.len() as int)
    &&& forall|j: int| 0 <= j < ts.len() - 1 ==> #[trigger] read_from(s, p, ts[j])
}

/// Token `t` was read starting at an index of `s` at or after `p`.
pub open spec fn read_from(s: Seq<char>, p: int, t: TokenV) -> bool {
    exists|q: int| p <= q && #[trigger] token_starts_at(s, t, q)
}

/// Each token of a lexing from `p` but the last was read starting at an
/// index at or after `p`, and the end marker carries the line and column of
/// the end of the text; an error carries a line and a column counted from 1.
proof fn lemma_lex_from_positions(s: Seq<char>, p: int)
    requires
        0 <= p <= s.len(),
    ensures
        match lex_from(s, p) {
            Ok(ts) => tokens_placed(s, p, ts),
            Err(e) => e.line >= 1 && e.col >= 1,
        },
    decreases s.len() - p,
{
    let q = skip_blanks(s, p);
    lemma_skip_blanks_bounds(s, p);
    lemma_position_positive(s, q);
    if q < s.len() {
        lemma_lex_step_progress(s, q);
        match lex_step(s, q) {
            Ok((k, n)) => {
                lemma_lex_from_positions(s, n);
                match lex_from(s, n) {
                    Ok(rest) => {
                        let tok = TokenV { kind: k, line: line_at(s, q), col: col_at(s, q) };
                        let ts = seq![tok] + rest;
                        assert(lex_from(s, p) == Ok::<Seq<TokenV>, CalcErrorV>(ts));
                        assert(ts.last() == rest.last());
                        assert forall|j: int| 0 <= j < ts.len() - 1 implies #[trigger] read_from(s, p, ts[j]) by {
                            if j == 0 {
                                assert(token_starts_at(s, ts[0], q));
                            } else {
                                assert(ts[j] == rest[j - 1]);
                                assert(read_from(s, n, rest[j - 1]));
                                let q3 = choose|q3: int| n <= q3 && #[trigger] token_starts_at(s, rest[j - 1], q3);
                                assert(token_starts_at(s, ts[j], q3));
                            }
                        }
                        assert(tokens_placed(s, p, ts));
                    },
                    Err(_) => {},
                }
            },
            Err(_) => {},
        }
    } else {
        let ts = lex_from(s, p)->Ok_0;
        assert(q == s.len());
        assert(tokens_placed(s, p, ts));
    }
}

/// The shape of a successful lexing: exactly one end marker, last, at the
/// end of the text; one `Newline` per line feed; every other token read
/// starting at a character of the text and tagged with that character's
/// line and column (counted from 1); and a failed lexing reports a line and
/// a column counted from 1.
pub proof fn law_lex_document_shape(s: Seq<char>)
    ensures
        match lex_document(s) {
            Ok(ts) => {
                &&& ts.len() >= 1
                &&& ts.last().kind is Eof
                &&& forall|i: int| 0 <= i < ts.len() - 1 ==> !(#[trigger] ts[i].kind is Eof)
                &&& newline_count(ts) + 1 == line_count(s)
                &&& tokens_placed(s, 0, ts)
                &&& forall|j: int| 0 <= j < ts.len() ==> #[trigger] ts[j].line >= 1 && ts[j].col >= 1
            },
            Err(e) => e.line >= 1 && e.col >= 1,
        },
{
    lemma_lex_from_positions(s, 0);
    if lex_document(s) is Ok {
        lemma_lex_from_lines(s, 0);
        let ts = lex_document(s)->Ok_0;
        assert forall|j: int| 0 <= j < ts.len() implies #[trigger] ts[j].line >= 1 && ts[j].col >= 1 by {
            if j == ts.len() - 1 {
                lemma_position_positive(s, s.len() as int);
            } else {
                assert(read_from(s, 0, ts[j]));
                let q = choose|q: int| 0 <= q && #[trigger] token_starts_at(s, ts[j], q);
                lemma_position_positive(s, q);
            }
        }
    }
}

// ── Decimal commas ─────────────────────────────────────────────────────────

/// Every character of `t` is an ASCII digit.
pub open spec fn all_digits(t: Seq<char>) -> bool {
    forall|i: int| 0 <= i < t.len() ==> is_ascii_digit_spec(#[trigger] t[i])
}

proof fn lemma_normalize_append(a: Seq<char>, b: Seq<char>)
    ensures
        normalize_mantissa(a + b) == normalize_mantissa(a) + normalize_mantissa(b),
    decreases b.len(),
{
    if b.len() == 0 {
        assert(a + b =~= a);
        assert(normalize_mantissa(a) + normalize_mantissa(b) =~= normalize_mantissa(a));
    } else {
        let b0 = b.drop_last();
        lemma_normalize_append(a, b0);
        assert((a + b).drop_last() =~= a + b0);
        assert((a + b).last() == b.last());
        let na = normalize_mantissa(a);
        let nb = normalize_mantissa(b0);
        assert((na + nb).push('.') =~= na + nb.push('.'));
        assert((na + nb).push(b.last()) =~= na + nb.push(b.last()));
    }
}

proof fn lemma_normalize_digits(t: Seq<char>)
    requires
        all_digits(t),
    ensures
        normalize_mantissa(t) == t,
        count_dots(t) == 0,
    decreases t.len(),
{
    if t.len() > 0 {
        assert(all_digits(t.drop_last()));
        lemma_normalize_digits(t.drop_last());
        assert(is_ascii_digit_spec(t[t.len() - 1]));
        assert(t.drop_last().push(t.last()) =~= t);
    }
}

proof fn lemma_count_dots_append(a: Seq<char>, b: Seq<char>)
    ensures
        count_dots(a + b) == count_dots(a) + count_dots(b),
    decreases b.len(),
{
    if b.len() == 0 {
        assert(a + b =~= a);
    } else {
        lemma_count_dots_append(a, b.drop_last());
        assert((a + b).drop_last() =~= a + b.drop_last());
        assert((a + b).last() == b.last());
    }
}

proof fn lemma_mantissa_to_end(s: Seq<char>, p: int)
    requires
        0 <= p <= s.len(),
        forall|i: int| p <= i < s.len() ==> #[trigger] continues_mantissa(s, i),
    ensures
        mantissa_end(s, p) == s.len(),
    decreases s.len() - p,
{
    if p < s.len() {
        assert(continues_mantissa(s, p));
        lemma_mantissa_to_end(s, p + 1);
    }
}

/// Without line feeds, index `p` is on line 1, column `p + 1`.
proof fn lemma_first_line_position(s: Seq<char>, p: int)
    requires
        0 <= p <= s.len(),
        forall|i: int| 0 <= i < p ==> #[trigger] s[i] != '\n',
    ensures
        line_at(s, p) == 1,
        col_at(s, p) == p + 1,
    decreases p,
{
    if p > 0 {
        lemma_first_line_position(s, p - 1);
    }
}

/// Digits, a separator `sep` (`.` or `,`), digits: one decimal number token
/// whose text has a `.` for the separator, then the end marker.
proof fn lemma_lex_separated_digits(x: Seq<char>, y: Seq<char>, sep: char)
    requires
        x.len() > 0,
        y.len() > 0,
        all_digits(x),
        all_digits(y),
        sep == ',' || sep == '.',
    ensures
        lex_document(x + seq![sep] + y) == Ok::<Seq<TokenV>, CalcErrorV>(
            seq![
                TokenV {
                    kind: TokenKindV::Number(NumberLitV::Decimal(x + seq!['.'] + y)),
                    line: 1,
                    col: 1,
                },
                TokenV { kind: TokenKindV::Eof, line: 1, col: (x.len() + y.len() + 2) as nat },
            ],
        ),
{
    let s = x + seq![sep] + y;
    let n = s.len() as int;
    let k = x.len() as int;
    assert(forall|i: int| 0 <= i < k ==> s[i] == x[i]);
    assert(s[k] == sep);
    assert(forall|i: int| k < i < n ==> s[i] == y[i - k - 1]);
    assert forall|i: int| 0 <= i < n implies #[trigger] s[i] != '\n' by {
        if i < k {
            assert(is_ascii_digit_spec(x[i]));
        } else if i > k {
            assert(is_ascii_digit_spec(y[i - k - 1]));
        }
    }
    assert forall|i: int| 0 <= i < n implies #[trigger] continues_mantissa(s, i) by {
        if i < k {
            assert(is_ascii_digit_spec(x[i]));
        } else if i > k {
            assert(is_ascii_digit_spec(y[i - k - 1]));
        } else {
            assert(is_ascii_digit_spec(y[0]));
        }
    }
    assert(is_ascii_digit_spec(x[0]));
    assert(skip_blanks(s, 0) == 0);
    assert(starts_number(s, 0));
    assert(!is_radix_prefix(s[1])) by {
        if k > 1 {
            assert(is_ascii_digit_spec(x[1]));
        }
    }
    lemma_mantissa_to_end(s, 0);
    assert(s.subrange(0, n) =~= s);
    lemma_normalize_append(x + seq![sep], y);
    lemma_normalize_append(x, seq![sep]);
    lemma_normalize_digits(x);
    lemma_normalize_digits(y);
    assert(normalize_mantissa(seq![sep]) =~= seq!['.']) by {
        assert(seq![sep].drop_last() =~= Seq::<char>::empty());
        reveal_with_fuel(normalize_mantissa, 2);
    }
    let mant = x + seq!['.'] + y;
    assert(normalize_mantissa(s) == mant);
    assert(mant + s.subrange(n, n) =~= mant);
    lemma_count_dots_append(x + seq!['.'], y);
    lemma_count_dots_append(x, seq!['.']);
    assert(count_dots(seq!['.']) == 1) by {
        assert(seq!['.'].drop_last() =~= Seq::<char>::empty());
        reveal_with_fuel(count_dots, 2);
    }
    assert(lex_number(s, 0) == Ok::<(NumberLitV, int), Seq<char>>((NumberLitV::Decimal(mant), n)));
    lemma_first_line_position(s, 0);
    lemma_first_line_position(s, n);
    assert(skip_blanks(s, n) == n);
    assert(lex_step(s, 0) == Ok::<(TokenKindV, int), CalcErrorV>((TokenKindV::Number(NumberLitV::Decimal(mant)), n)));
    assert(lex_from(s, n) == Ok::<Seq<TokenV>, CalcErrorV>(
        seq![TokenV { kind: TokenKindV::Eof, line: 1, col: (n + 1) as nat }],
    ));
    assert(n + 1 == x.len() + y.len() + 2);
    let tok = TokenV { kind: TokenKindV::Number(NumberLitV::Decimal(mant)), line: 1, col: 1 };
    let eof = TokenV { kind: TokenKindV::Eof, line: 1, col: (n + 1) as nat };
    assert(lex_from(s, 0) == Ok::<Seq<TokenV>, CalcErrorV>(seq![tok] + seq![eof]));
    assert(seq![tok] + seq![eof] =~= seq![tok, eof]);
}

/// A decimal comma between digits reads as a decimal point: `3,5` lexes
/// exactly as `3.5` does, into one decimal number.
pub proof fn law_decimal_comma(x: Seq<char>, y: Seq<char>)
    requires
        x.len() > 0,
        y.len() > 0,
        all_digits(x),
        all_digits(y),
    ensures
        lex_document(x + seq![','] + y) == lex_document(x + seq!['.'] + y),
        lex_document(x + seq![','] + y) matches Ok(ts) && ts.len() == 2 && ts[0].kind
            == TokenKindV::Number(NumberLitV::Decimal(x + seq!['.'] + y)),
{
    lemma_lex_separated_digits(x, y, ',');
    lemma_lex_separated_digits(x, y, '.');
}

impl Lexer {
    fn classify_ident(&self, s: &str) -> (r: TokenKind)
        ensures
            r@ == classify_word(s@),
    {
        if str_eq(s, "in") {
            TokenKind::Keyword(Keyword::In)
        } else if str_eq(s, "to") {
            TokenKind::Keyword(Keyword::To)
        } else if str_eq(s, "as") {
            TokenKind::Keyword(Keyword::As)
        } else if str_eq(s, "of") {
            TokenKind::Keyword(Keyword::Of)
        } else {
            TokenKind::Ident(String::from_str(s))
        }
    }

    /// Reads the token that starts at the current (non-blank) position.
    fn lex_one(&mut self) -> (r: Result<TokenKind, CalcError>)
        requires
            old(self).wf(),
            old(self).pos < old(self).chars.len(),
        ensures
            final(self).wf(),
            final(self).chars@ == old(self).chars@,
            match lex_step(old(self).chars@, old(self).pos as int) {
                Ok((k, n)) => r matches Ok(t) && t@ == k && final(self).pos == n,
                Err(e) => r matches Err(err) && err@ == e,
            },
    {
        let ghost s = self.chars@;
        let ghost q = self.pos as int;
        let (line, col) = self.current_pos();
        let ch = self.chars[self.pos];
        if ch == '\n' {
            self.advance();
            return Ok(TokenKind::Newline);
        }
        if ch == '#' {
            self.advance();
            let c = self.read_line_comment();
            return Ok(TokenKind::Comment(c));
        }
        let next_is_slash = match self.peek_at(1) {
            Some(c) => c == '/',
            None => false,
        };
        if ch == '/' && next_is_slash {
            self.advance();
            self.advance();
            let c = self.read_line_comment();
            return Ok(TokenKind::Comment(c));
        }
        let next_is_digit = match self.peek_at(1) {
            Some(c) => is_ascii_digit(c),
            None => false,
        };
        if is_ascii_digit(ch) || (ch == '.' && next_is_digit) {
            match self.read_number() {
                Ok(n) => {
                    return Ok(TokenKind::Number(n));
                },
                Err(e) => {
                    return Err(e);
                },
            }
        }
        if is_alphabetic(ch) || ch == '_' || ch == '°' {
            let mut word = String::new();
            push_char(&mut word, ch);
            self.advance();
            if ch == '°' {
                match self.peek() {
                    Some(next) => {
                        if next == 'C' || next == 'F' {
                            push_char(&mut word, next);
                            self.advance();
                            assert(word@ =~= seq!['°', s[q + 1]]);
                        }
                    },
                    None => {},
                }
            } else {
                let rest = self.read_ident();
                word.append(rest.as_str());
                proof {
                    lemma_ident_end_bounds(s, q + 1);
                    assert(word@ =~= s.subrange(q, ident_end(s, q + 1)));
                }
            }
            return Ok(self.classify_ident(word.as_str()));
        }
        self.advance();
        if ch == '+' {
            Ok(TokenKind::Plus)
        } else if ch == '-' {
            Ok(TokenKind::Minus)
        } else if ch == '*' {
            Ok(TokenKind::Star)
        } else if ch == '/' {
            Ok(TokenKind::Slash)
        } else if ch == '%' {
            Ok(TokenKind::Percent)
        } else if ch == '^' {
            Ok(TokenKind::Caret)
        } else if ch == '=' {
            Ok(TokenKind::Eq)
        } else if ch == '(' {
            Ok(TokenKind::LParen)
        } else if ch == ')' {
            Ok(TokenKind::RParen)
        } else if ch == ',' {
            Ok(TokenKind::Comma)
        } else if ch == ':' {
            Ok(TokenKind::Colon)
        } else {
            let d = char_debug(ch);
            let msg = concat_str("Unexpected character: ", d.as_str());
            Err(CalcError::new(msg, line, col))
        }
    }

    /// Splits the rest of the input into tokens, ending with `Eof`; the first
    /// lexical error aborts the whole run.
    pub fn tokenize(&mut self) -> (r: Result<Vec<Token>, CalcError>)
        requires
            old(self).wf(),
        ensures
            match r {
                Ok(ts) => lex_from(old(self).input(), old(self).position()) == Ok::<
                    Seq<TokenV>,
                    CalcErrorV,
                >(tokens_view(ts@)) && columns_fit(tokens_view(ts@)),
                Err(e) => lex_from(old(self).input(), old(self).position()) == Err::<
                    Seq<TokenV>,
                    CalcErrorV,
                >(e@),
            },
    {
        let ghost s = self.chars@;
        let ghost p0 = self.pos as int;
        let mut tokens: Vec<Token> = Vec::new();
        assert(tokens_view(tokens@) =~= Seq::<TokenV>::empty());
        assert(prepend_tokens(tokens_view(tokens@), lex_from(s, p0)) =~= lex_from(s, p0)) by {
            match lex_from(s, p0) {
                Ok(rest) => {
                    assert(Seq::<TokenV>::empty() + rest =~= rest);
                },
                Err(_) => {},
            }
        }
        loop
            invariant
                self.wf(),
                self.chars@ == s,
                s == old(self).chars@,
                p0 == old(self).pos,
                0 <= p0 <= self.pos,
                lex_from(s, p0) == prepend_tokens(tokens_view(tokens@), lex_from(s, self.pos as int)),
                columns_fit(tokens_view(tokens@)),
            decreases s.len() - self.pos,
        {
            let ghost p = self.pos as int;
            let ghost before = tokens_view(tokens@);
            self.skip_whitespace();
            proof {
                lemma_skip_blanks_bounds(s, p);
            }
            let (line, col) = self.current_pos();
            if self.pos >= self.chars.len() {
                tokens.push(Token { kind: TokenKind::Eof, line, col });
                let ghost eof = TokenV { kind: TokenKindV::Eof, line: line as nat, col: col as nat };
                assert(tokens_view(tokens@) =~= before.push(eof));
                assert(columns_fit(tokens_view(tokens@))) by {
                    assert forall|i: int| 0 <= i < tokens_view(tokens@).len() && !(#[trigger] tokens_view(tokens@)[i].kind is Eof) implies tokens_view(tokens@)[i].col < usize::MAX by {
                        if i < before.len() {
                            assert(tokens_view(tokens@)[i] == before[i]);
                        }
                    }
                }
                assert(lex_from(s, p) == Ok::<Seq<TokenV>, CalcErrorV>(seq![eof]));
                assert(before + seq![eof] =~= before.push(eof));
                return Ok(tokens);
            }
            proof {
                lemma_lex_step_progress(s, self.pos as int);
            }
            match self.lex_one() {
                Ok(kind) => {
                    let ghost kv = kind@;
                    let ghost n = self.pos as int;
                    let ghost t = TokenV { kind: kv, line: line as nat, col: col as nat };
                    tokens.push(Token { kind, line, col });
                    assert(tokens_view(tokens@) =~= before.push(t));
                    assert(columns_fit(tokens_view(tokens@))) by {
                        assert forall|i: int| 0 <= i < tokens_view(tokens@).len() && !(#[trigger] tokens_view(tokens@)[i].kind is Eof) implies tokens_view(tokens@)[i].col < usize::MAX by {
                            if i < before.len() {
                                assert(tokens_view(tokens@)[i] == before[i]);
                            }
                        }
                    }
                    proof {
                        assert(lex_from(s, p) == prepend_tokens(seq![t], lex_from(s, n)));
                        match lex_from(s, n) {
                            Ok(rest) => {
                                assert(before + (seq![t] + rest) =~= before.push(t) + rest);
                            },
                            Err(_) => {},
                        }
                    }
                },
                Err(e) => {
                    assert(lex_from(s, p) == Err::<Seq<TokenV>, CalcErrorV>(e@));
                    return Err(e);
                },
            }
        }
    }
}


impl NumberLit {
    /// A copy of the literal.
    pub fn duplicate(&self) -> (r: NumberLit)
        ensures
            r@ == self@,
    {
        match self {
            NumberLit::Decimal(s) => NumberLit::Decimal(s.clone()),
            NumberLit::Integer(v) => NumberLit::Integer(*v),
        }
    }
}

impl TokenKind {
    /// A copy of the token kind.
    pub fn duplicate(&self) -> (r: TokenKind)
        ensures
            r@ == self@,
    {
        match self {
            TokenKind::Number(n) => TokenKind::Number(n.duplicate()),
            TokenKind::Ident(s) => TokenKind::Ident(s.clone()),
            TokenKind::Plus => TokenKind::Plus,
            TokenKind::Minus => TokenKind::Minus,
            TokenKind::Star => TokenKind::Star,
            TokenKind::Slash => TokenKind::Slash,
            TokenKind::Percent => TokenKind::Percent,
            TokenKind::Caret => TokenKind::Caret,
            TokenKind::Eq => TokenKind::Eq,
            TokenKind::LParen => TokenKind::LParen,
            TokenKind::RParen => TokenKind::RParen,
            TokenKind::Comma => TokenKind::Comma,
            TokenKind::Colon => TokenKind::Colon,
            TokenKind::Comment(s) => TokenKind::Comment(s.clone()),
            TokenKind::Keyword(k) => TokenKind::Keyword(*k),
            TokenKind::Newline => TokenKind::Newline,
            TokenKind::Eof => TokenKind::Eof,
        }
    }
}

impl Token {
    /// A copy of the token.
    pub fn duplicate(&self) -> (r: Token)
        ensures
            r@ == self@,
    {
        Token { kind: self.kind.duplicate(), line: self.line, col: self.col }
    }
}

} // verus!
