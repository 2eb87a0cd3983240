//! Lexing is local to a line: the tokens of a line, and so its parse, depend
//! only on that line's text and its line number.
use vstd::prelude::*;
use crate::error::CalcErrorV;
use crate::lexer::{TokenV, lex_from, newline_count};
use crate::parser::{document_lines, parse_document_spec, split_lines};
use crate::lexer::{
    NumberLitV, TokenKindV, col_at, lex_document, line_count, continues_mantissa, decimal_end, digits_end, exponent_digits_start,
    exponent_starts, ident_end, is_blank, is_ident_char, is_radix_digit, is_radix_prefix,
    lemma_same_line, lex_decimal, lex_number, lex_radix, lex_step, line_at, line_end,
    mantissa_end, radix_end, radix_of_prefix, skip_blanks, starts_number, word_at,
};
use crate::text::is_ascii_digit_spec;

verus! {

/// `s1` from `o1` and `s2` from `o2` hold the same `n` characters, none of
/// them a line feed, and each run is followed by a line feed or the end of
/// its text.
pub open spec fn same_line_text(s1: Seq<char>, o1: int, s2: Seq<char>, o2: int, n: int) -> bool {
    &&& 0 <= n
    &&& 0 <= o1 && o1 + n <= s1.len()
    &&& 0 <= o2 && o2 + n <= s2.len()
    &&& forall|i: int| o1 <= i < o1 + n ==> #[trigger] s1[i] == s2[i - o1 + o2] && s1[i] != '\n'
    &&& (o1 + n == s1.len() || s1[o1 + n] == '\n')
    &&& (o2 + n == s2.len() || s2[o2 + n] == '\n')
}

proof fn lemma_skip_blanks_local(s1: Seq<char>, o1: int, s2: Seq<char>, o2: int, n: int, p: int)
    requires
        same_line_text(s1, o1, s2, o2, n),
        o1 <= p <= o1 + n,
    ensures
        skip_blanks(s1, p) <= o1 + n,
        skip_blanks(s2, p - o1 + o2) == skip_blanks(s1, p) - o1 + o2,
    decreases o1 + n - p,
{
    if p < o1 + n {
        assert(s1[p] == s2[p - o1 + o2]);
        if is_blank(s1[p]) {
            lemma_skip_blanks_local(s1, o1, s2, o2, n, p + 1);
        }
    }
}

proof fn lemma_line_end_local(s1: Seq<char>, o1: int, s2: Seq<char>, o2: int, n: int, p: int)
    requires
        same_line_text(s1, o1, s2, o2, n),
        o1 <= p <= o1 + n,
    ensures
        line_end(s1, p) == o1 + n,
        line_end(s2, p - o1 + o2) == o2 + n,
    decreases o1 + n - p,
{
    if p < o1 + n {
        assert(s1[p] == s2[p - o1 + o2]);
        lemma_line_end_local(s1, o1, s2, o2, n, p + 1);
    }
}

proof fn lemma_ident_end_local(s1: Seq<char>, o1: int, s2: Seq<char>, o2: int, n: int, p: int)
    requires
        same_line_text(s1, o1, s2, o2, n),
        o1 <= p <= o1 + n,
    ensures
        ident_end(s1, p) <= o1 + n,
        ident_end(s2, p - o1 + o2) == ident_end(s1, p) - o1 + o2,
    decreases o1 + n - p,
{
    if p < o1 + n {
        assert(s1[p] == s2[p - o1 + o2]);
        if is_ident_char(s1[p]) {
            lemma_ident_end_local(s1, o1, s2, o2, n, p + 1);
        }
    }
}

proof fn lemma_digits_end_local(s1: Seq<char>, o1: int, s2: Seq<char>, o2: int, n: int, p: int)
    requires
        same_line_text(s1, o1, s2, o2, n),
        o1 <= p <= o1 + n,
    ensures
        digits_end(s1, p) <= o1 + n,
        digits_end(s2, p - o1 + o2) == digits_end(s1, p) - o1 + o2,
    decreases o1 + n - p,
{
    if p < o1 + n {
        assert(s1[p] == s2[p - o1 + o2]);
        if is_ascii_digit_spec(s1[p]) {
            lemma_digits_end_local(s1, o1, s2, o2, n, p + 1);
        }
    }
}

proof fn lemma_radix_end_local(
    s1: Seq<char>,
    o1: int,
    s2: Seq<char>,
    o2: int,
    n: int,
    p: int,
    radix: nat,
)
    requires
        same_line_text(s1, o1, s2, o2, n),
        o1 <= p <= o1 + n,
    ensures
        radix_end(s1, p, radix) <= o1 + n,
        radix_end(s2, p - o1 + o2, radix) == radix_end(s1, p, radix) - o1 + o2,
    decreases o1 + n - p,
{
    if p < o1 + n {
        assert(s1[p] == s2[p - o1 + o2]);
        if is_radix_digit(s1[p], radix) || s1[p] == '_' {
            lemma_radix_end_local(s1, o1, s2, o2, n, p + 1, radix);
        }
    }
}

/// Whether the character after `p` is a digit reads the same in both texts.
proof fn lemma_next_digit_local(s1: Seq<char>, o1: int, s2: Seq<char>, o2: int, n: int, p: int)
    requires
        same_line_text(s1, o1, s2, o2, n),
        o1 <= p < o1 + n,
    ensures
        (p + 1 < s1.len() && is_ascii_digit_spec(s1[p + 1])) == (p - o1 + o2 + 1 < s2.len()
            && is_ascii_digit_spec(s2[p - o1 + o2 + 1])),
        (p + 1 < s1.len() && is_ascii_digit_spec(s1[p + 1])) ==> p + 1 < o1 + n,
{
    if p + 1 < o1 + n {
        assert(s1[p + 1] == s2[p + 1 - o1 + o2]);
    }
}

proof fn lemma_mantissa_end_local(s1: Seq<char>, o1: int, s2: Seq<char>, o2: int, n: int, p: int)
    requires
        same_line_text(s1, o1, s2, o2, n),
        o1 <= p <= o1 + n,
    ensures
        mantissa_end(s1, p) <= o1 + n,
        mantissa_end(s2, p - o1 + o2) == mantissa_end(s1, p) - o1 + o2,
    decreases o1 + n - p,
{
    if p < o1 + n {
        assert(s1[p] == s2[p - o1 + o2]);
        lemma_next_digit_local(s1, o1, s2, o2, n, p);
        if continues_mantissa(s1, p) {
            lemma_mantissa_end_local(s1, o1, s2, o2, n, p + 1);
        }
    }
}

/// Index `o` starts a line of `s`.
pub open spec fn line_start(s: Seq<char>, o: int) -> bool {
    o == 0 || (0 < o <= s.len() && s[o - 1] == '\n')
}

/// The same line text at `o1` in `s1` and at `o2` in `s2`, each starting a
/// line, and with the same line number.
pub open spec fn same_line(s1: Seq<char>, o1: int, s2: Seq<char>, o2: int, n: int) -> bool {
    &&& same_line_text(s1, o1, s2, o2, n)
    &&& line_start(s1, o1)
    &&& line_start(s2, o2)
    &&& line_at(s1, o1) == line_at(s2, o2)
}

/// A number reading with its end moved by `d`.
pub open spec fn shift_number(r: Result<(NumberLitV, int), Seq<char>>, d: int) -> Result<
    (NumberLitV, int),
    Seq<char>,
> {
    match r {
        Ok((lit, e)) => Ok((lit, e + d)),
        Err(m) => Err(m),
    }
}

/// A token step with its end moved by `d`.
pub open spec fn shift_step(r: Result<(TokenKindV, int), CalcErrorV>, d: int) -> Result<
    (TokenKindV, int),
    CalcErrorV,
> {
    match r {
        Ok((k, e)) => Ok((k, e + d)),
        Err(x) => Err(x),
    }
}

proof fn lemma_subrange_local(s1: Seq<char>, o1: int, s2: Seq<char>, o2: int, n: int, a: int, b: int)
    requires
        same_line_text(s1, o1, s2, o2, n),
        o1 <= a <= b <= o1 + n,
    ensures
        s2.subrange(a - o1 + o2, b - o1 + o2) == s1.subrange(a, b),
{
    assert forall|i: int| 0 <= i < b - a implies #[trigger] s1.subrange(a, b)[i] == s2.subrange(
        a - o1 + o2,
        b - o1 + o2,
    )[i] by {
        assert(s1[a + i] == s2[a + i - o1 + o2]);
    }
    assert(s2.subrange(a - o1 + o2, b - o1 + o2) =~= s1.subrange(a, b));
}

/// Whether an exponent starts at `m` reads the same in both texts.
proof fn lemma_exponent_local(s1: Seq<char>, o1: int, s2: Seq<char>, o2: int, n: int, m: int)
    requires
        same_line_text(s1, o1, s2, o2, n),
        o1 <= m <= o1 + n,
    ensures
        exponent_starts(s2, m - o1 + o2) == exponent_starts(s1, m),
        exponent_starts(s1, m) ==> m + 1 < o1 + n && exponent_digits_start(s1, m) <= o1 + n
            && exponent_digits_start(s2, m - o1 + o2) == exponent_digits_start(s1, m) - o1 + o2,
{
    if m < o1 + n {
        assert(s1[m] == s2[m - o1 + o2]);
        if m + 1 < o1 + n {
            assert(s1[m + 1] == s2[m + 1 - o1 + o2]);
        }
    }
}

proof fn lemma_lex_decimal_local(s1: Seq<char>, o1: int, s2: Seq<char>, o2: int, n: int, p: int)
    requires
        same_line_text(s1, o1, s2, o2, n),
        o1 <= p < o1 + n,
    ensures
        lex_decimal(s2, p - o1 + o2) == shift_number(lex_decimal(s1, p), o2 - o1),
        lex_decimal(s1, p) matches Ok((_, e)) ==> e <= o1 + n,
{
    let d = o2 - o1;
    lemma_mantissa_end_local(s1, o1, s2, o2, n, p);
    crate::lexer::lemma_mantissa_end_bounds(s1, p);
    let m = mantissa_end(s1, p);
    lemma_subrange_local(s1, o1, s2, o2, n, p, m);
    lemma_exponent_local(s1, o1, s2, o2, n, m);
    if exponent_starts(s1, m) {
        let x = exponent_digits_start(s1, m);
        lemma_digits_end_local(s1, o1, s2, o2, n, x);
        crate::lexer::lemma_digits_end_bounds(s1, x);
    }
    let e = decimal_end(s1, m);
    assert(decimal_end(s2, m + d) == e + d);
    assert(m <= e <= o1 + n);
    lemma_subrange_local(s1, o1, s2, o2, n, m, e);
}

proof fn lemma_lex_number_local(s1: Seq<char>, o1: int, s2: Seq<char>, o2: int, n: int, p: int)
    requires
        same_line_text(s1, o1, s2, o2, n),
        o1 <= p < o1 + n,
    ensures
        lex_number(s2, p - o1 + o2) == shift_number(lex_number(s1, p), o2 - o1),
        lex_number(s1, p) matches Ok((_, e)) ==> e <= o1 + n,
{
    assert(s1[p] == s2[p - o1 + o2]);
    if p + 1 < o1 + n {
        assert(s1[p + 1] == s2[p + 1 - o1 + o2]);
    }
    if s1[p] == '0' && p + 1 < s1.len() && is_radix_prefix(s1[p + 1]) {
        let r = radix_of_prefix(s1[p + 1]);
        lemma_radix_end_local(s1, o1, s2, o2, n, p + 2, r);
        crate::lexer::lemma_radix_end_bounds(s1, p + 2, r);
        lemma_subrange_local(s1, o1, s2, o2, n, p + 2, radix_end(s1, p + 2, r));
    } else {
        lemma_lex_decimal_local(s1, o1, s2, o2, n, p);
    }
}

/// From the start of a line with no line feed since, the column is one
/// more than the distance.
proof fn lemma_col_from_line_start(s: Seq<char>, o: int, p: int)
    requires
        line_start(s, o),
        o <= p <= s.len(),
        forall|i: int| o <= i < p ==> #[trigger] s[i] != '\n',
    ensures
        col_at(s, p) == p - o + 1,
    decreases p - o,
{
    if p > o {
        lemma_col_from_line_start(s, o, p - 1);
    }
}

/// Index `o1 + j` of `s1` and `o2 + j` of `s2` have the same line and column.
proof fn lemma_position_local(s1: Seq<char>, o1: int, s2: Seq<char>, o2: int, n: int, q: int)
    requires
        same_line(s1, o1, s2, o2, n),
        o1 <= q <= o1 + n,
    ensures
        line_at(s2, q - o1 + o2) == line_at(s1, q),
        col_at(s2, q - o1 + o2) == col_at(s1, q),
{
    let q2 = q - o1 + o2;
    assert forall|i: int| o2 <= i < q2 implies #[trigger] s2[i] != '\n' by {
        assert(s1[i - o2 + o1] == s2[i]);
    }
    lemma_same_line(s1, o1, q);
    lemma_same_line(s2, o2, q2);
    lemma_col_from_line_start(s1, o1, q);
    lemma_col_from_line_start(s2, o2, q2);
}

/// A token step inside a line reads the same in both texts, and stays in the
/// line.
proof fn lemma_lex_step_local(s1: Seq<char>, o1: int, s2: Seq<char>, o2: int, n: int, q: int)
    requires
        same_line(s1, o1, s2, o2, n),
        o1 <= q < o1 + n,
    ensures
        lex_step(s2, q - o1 + o2) == shift_step(lex_step(s1, q), o2 - o1),
        lex_step(s1, q) matches Ok((_, e)) ==> e <= o1 + n,
{
    let q2 = q - o1 + o2;
    lemma_position_local(s1, o1, s2, o2, n, q);
    assert(s1[q] == s2[q2]);
    if q + 1 < o1 + n {
        assert(s1[q + 1] == s2[q2 + 1]);
    }
    let c = s1[q];
    if c == '#' {
        lemma_line_end_local(s1, o1, s2, o2, n, q + 1);
        lemma_subrange_local(s1, o1, s2, o2, n, q + 1, o1 + n);
    } else if c == '/' && q + 1 < s1.len() && s1[q + 1] == '/' {
        lemma_line_end_local(s1, o1, s2, o2, n, q + 2);
        lemma_subrange_local(s1, o1, s2, o2, n, q + 2, o1 + n);
    } else if starts_number(s1, q) {
        lemma_next_digit_local(s1, o1, s2, o2, n, q);
        lemma_lex_number_local(s1, o1, s2, o2, n, q);
    } else if crate::lexer::starts_word(s1, q) {
        lemma_next_digit_local(s1, o1, s2, o2, n, q);
        if c != '°' {
            lemma_ident_end_local(s1, o1, s2, o2, n, q + 1);
            crate::lexer::lemma_ident_end_bounds(s1, q + 1);
            lemma_subrange_local(s1, o1, s2, o2, n, q, ident_end(s1, q + 1));
            assert(word_at(s2, q2) == (word_at(s1, q).0, word_at(s1, q).1 - o1 + o2));
        }
    } else {
        lemma_next_digit_local(s1, o1, s2, o2, n, q);
    }
}

/// The tokens of `t` before its first `Newline` or `Eof`: the rest of the
/// line that `t` starts in.
pub open spec fn first_line_tokens(t: Seq<TokenV>) -> Seq<TokenV>
    decreases t.len(),
{
    if t.len() == 0 || t[0].kind is Newline || t[0].kind is Eof {
        Seq::empty()
    } else {
        seq![t[0]] + first_line_tokens(t.drop_first())
    }
}

/// Lexing the rest of a line gives the same tokens in both texts, up to the
/// end of the line.
proof fn lemma_lex_from_local(s1: Seq<char>, o1: int, s2: Seq<char>, o2: int, n: int, p: int)
    requires
        same_line(s1, o1, s2, o2, n),
        o1 <= p <= o1 + n,
        lex_from(s1, p) is Ok,
        lex_from(s2, p - o1 + o2) is Ok,
    ensures
        first_line_tokens(lex_from(s1, p)->Ok_0) == first_line_tokens(lex_from(s2, p - o1 + o2)->Ok_0),
    decreases o1 + n - p,
{
    let d = o2 - o1;
    let p2 = p + d;
    lemma_skip_blanks_local(s1, o1, s2, o2, n, p);
    crate::lexer::lemma_skip_blanks_bounds(s1, p);
    crate::lexer::lemma_skip_blanks_bounds(s2, p2);
    let q1 = skip_blanks(s1, p);
    let q2 = skip_blanks(s2, p2);
    let ts1 = lex_from(s1, p)->Ok_0;
    let ts2 = lex_from(s2, p2)->Ok_0;
    if q1 == o1 + n {
        assert(q2 == o2 + n);
        if q1 < s1.len() {
            assert(s1[q1] == '\n');
            assert(ts1[0].kind is Newline);
        }
        if q2 < s2.len() {
            assert(s2[q2] == '\n');
            assert(ts2[0].kind is Newline);
        }
    } else {
        lemma_lex_step_local(s1, o1, s2, o2, n, q1);
        crate::lexer::lemma_lex_step_lines(s1, q1);
        lemma_position_local(s1, o1, s2, o2, n, q1);
        let (k, e) = lex_step(s1, q1)->Ok_0;
        assert(s1[q1] != '\n');
        assert(!(k is Newline)) by {
            if k is Newline {
                assert(s1[q1] == '\n');
            }
        }
        lemma_lex_from_local(s1, o1, s2, o2, n, e);
        let rest1 = lex_from(s1, e)->Ok_0;
        let rest2 = lex_from(s2, e + d)->Ok_0;
        let tok = crate::lexer::TokenV { kind: k, line: line_at(s1, q1), col: col_at(s1, q1) };
        assert(ts1 == seq![tok] + rest1);
        assert(ts2 == seq![tok] + rest2);
        assert(ts1.drop_first() =~= rest1);
        assert(ts2.drop_first() =~= rest2);
    }
}

proof fn lemma_line_at_monotone(s: Seq<char>, a: int, b: int)
    requires
        0 <= a <= b <= s.len(),
    ensures
        line_at(s, a) <= line_at(s, b),
    decreases b - a,
{
    if a < b {
        lemma_line_at_monotone(s, a, b - 1);
    }
}

proof fn lemma_skip_blanks_stops(s: Seq<char>, p: int, x: int)
    requires
        0 <= p <= x < s.len(),
        !is_blank(s[x]),
    ensures
        skip_blanks(s, p) <= x,
    decreases x - p,
{
    if p < x && is_blank(s[p]) {
        lemma_skip_blanks_stops(s, p + 1, x);
    }
}

/// Lexing from `p` passes through the line start `o`: its tokens are those
/// read before `o` (ending with the line feed's `Newline`), then those of
/// lexing from `o`.
proof fn lemma_lex_through(s: Seq<char>, p: int, o: int) -> (pre: Seq<TokenV>)
    requires
        0 <= p <= o <= s.len(),
        line_start(s, o),
        lex_from(s, p) is Ok,
    ensures
        lex_from(s, o) is Ok,
        lex_from(s, p)->Ok_0 == pre + lex_from(s, o)->Ok_0,
        newline_count(pre) + line_at(s, p) == line_at(s, o),
        forall|i: int| 0 <= i < pre.len() ==> !(#[trigger] pre[i].kind is Eof),
        p < o ==> pre.len() > 0 && pre.last().kind is Newline,
        p == o ==> pre.len() == 0,
    decreases o - p,
{
    if p == o {
        let pre = Seq::<TokenV>::empty();
        assert(pre + lex_from(s, o)->Ok_0 =~= lex_from(s, o)->Ok_0);
        pre
    } else {
        let q = skip_blanks(s, p);
        lemma_skip_blanks_stops(s, p, o - 1);
        crate::lexer::lemma_skip_blanks_bounds(s, p);
        crate::lexer::lemma_skip_blanks_no_feed(s, p);
        lemma_same_line(s, p, q);
        crate::lexer::lemma_lex_step_lines(s, q);
        crate::lexer::lemma_lex_step_progress(s, q);
        let (k, e) = lex_step(s, q)->Ok_0;
        if !(k is Newline) && e > o - 1 {
            lemma_line_at_monotone(s, o, e);
            lemma_line_at_monotone(s, q, o - 1);
            assert(line_at(s, o) == line_at(s, o - 1) + 1);
        }
        assert(e <= o);
        assert(e == o ==> k is Newline);
        let pre1 = lemma_lex_through(s, e, o);
        let tok = TokenV { kind: k, line: line_at(s, q), col: col_at(s, q) };
        let rest = lex_from(s, o)->Ok_0;
        let pre = seq![tok] + pre1;
        assert(lex_from(s, p)->Ok_0 == seq![tok] + lex_from(s, e)->Ok_0);
        assert(lex_from(s, p)->Ok_0 =~= pre + rest);
        assert(pre.drop_first() =~= pre1);
        assert forall|i: int| 0 <= i < pre.len() implies !(#[trigger] pre[i].kind is Eof) by {
            if i > 0 {
                assert(pre[i] == pre1[i - 1]);
            }
        }
        pre
    }
}

/// Splitting from `i` puts the rest of the current line (`cur`, then the
/// tokens up to the next `Newline` or `Eof`) right after the lines in `acc`,
/// which stay as they are.
proof fn lemma_split_next_line(t: Seq<TokenV>, i: int, cur: Seq<TokenV>, acc: Seq<Seq<TokenV>>)
    requires
        0 <= i < t.len(),
        t.last().kind is Eof,
        forall|j: int| 0 <= j < t.len() - 1 ==> !(#[trigger] t[j].kind is Eof),
    ensures
        split_lines(t, i, cur, acc).len() > acc.len(),
        split_lines(t, i, cur, acc)[acc.len() as int] == cur + first_line_tokens(t.skip(i)),
        forall|m: int| 0 <= m < acc.len() ==> #[trigger] split_lines(t, i, cur, acc)[m] == acc[m],
    decreases t.len() - i,
{
    let ti = t.skip(i);
    assert(ti[0] == t[i]);
    assert(ti.drop_first() =~= t.skip(i + 1));
    if t[i].kind == TokenKindV::Newline {
        lemma_split_next_line(t, i + 1, Seq::empty(), acc.push(cur));
        assert(cur + first_line_tokens(ti) =~= cur);
    } else if t[i].kind == TokenKindV::Eof {
        assert(cur + first_line_tokens(ti) =~= cur);
    } else {
        lemma_split_next_line(t, i + 1, cur.push(t[i]), acc);
        assert(cur.push(t[i]) + first_line_tokens(t.skip(i + 1)) =~= cur + first_line_tokens(ti));
    }
}

/// Splitting runs through whole lines: from `i` to just after a `Newline` at
/// `j - 1` it only adds those lines to `acc`.
proof fn lemma_split_through(t: Seq<TokenV>, i: int, cur: Seq<TokenV>, acc: Seq<Seq<TokenV>>, j: int) -> (acc2:
    Seq<Seq<TokenV>>)
    requires
        0 <= i <= j < t.len(),
        forall|x: int| i <= x < j ==> !(#[trigger] t[x].kind is Eof),
        i < j ==> t[j - 1].kind is Newline,
        i == j ==> cur.len() == 0,
    ensures
        split_lines(t, i, cur, acc) == split_lines(t, j, Seq::empty(), acc2),
        acc2.len() == acc.len() + newline_count(t.subrange(i, j)),
    decreases j - i,
{
    if i == j {
        assert(cur =~= Seq::<TokenV>::empty());
        assert(newline_count(t.subrange(i, j)) == 0) by {
            assert(t.subrange(i, j) =~= Seq::<TokenV>::empty());
        }
        acc
    } else {
        let sub = t.subrange(i, j);
        assert(sub[0] == t[i]);
        assert(sub.drop_first() =~= t.subrange(i + 1, j));
        assert(!(t[i].kind is Eof));
        if t[i].kind == TokenKindV::Newline {
            lemma_split_through(t, i + 1, Seq::empty(), acc.push(cur), j)
        } else {
            lemma_split_through(t, i + 1, cur.push(t[i]), acc, j)
        }
    }
}

/// Line `k` of the parsed lines of a document is the rest of the line that
/// starts at `o`, where `k + 1` is that line's number.
proof fn lemma_document_line_at(s: Seq<char>, o: int)
    requires
        0 <= o <= s.len(),
        line_start(s, o),
        lex_document(s) is Ok,
    ensures
        lex_from(s, o) is Ok,
        line_at(s, o) <= line_count(s),
        document_lines(lex_document(s)->Ok_0).len() == line_count(s),
        document_lines(lex_document(s)->Ok_0)[line_at(s, o) - 1] == first_line_tokens(
            lex_from(s, o)->Ok_0,
        ),
{
    let pre = lemma_lex_through(s, 0, o);
    let rest = lex_from(s, o)->Ok_0;
    let t = lex_document(s)->Ok_0;
    assert(t == pre + rest);
    crate::lexer::lemma_lex_from_lines(s, o);
    crate::lexer::lemma_lex_from_lines(s, 0);
    crate::parser::lemma_document_line_count(s);
    lemma_line_at_monotone(s, o, s.len() as int);
    let k = pre.len() as int;
    assert forall|x: int| 0 <= x < k implies !(#[trigger] t[x].kind is Eof) by {
        assert(t[x] == pre[x]);
    }
    if k > 0 {
        assert(t[k - 1] == pre.last());
    }
    assert(t.subrange(0, k) =~= pre);
    let acc2 = lemma_split_through(t, 0, Seq::empty(), Seq::empty(), k);
    assert forall|j: int| 0 <= j < t.len() - 1 implies !(#[trigger] t[j].kind is Eof) by {
        if j >= k {
            assert(t[j] == rest[j - k]);
        } else {
            assert(t[j] == pre[j]);
        }
    }
    assert(t.last() == rest.last());
    lemma_split_next_line(t, k, Seq::empty(), acc2);
    assert(t.skip(k) =~= rest);
    assert(Seq::<TokenV>::empty() + first_line_tokens(rest) =~= first_line_tokens(rest));
}

/// The same line text with the same line number parses alike in two
/// documents that both lex.
proof fn lemma_same_line_same_parse(s1: Seq<char>, o1: int, s2: Seq<char>, o2: int, n: int)
    requires
        same_line(s1, o1, s2, o2, n),
        lex_document(s1) is Ok,
        lex_document(s2) is Ok,
    ensures
        1 <= line_at(s1, o1) <= parse_document_spec(lex_document(s1)->Ok_0).len(),
        1 <= line_at(s2, o2) <= parse_document_spec(lex_document(s2)->Ok_0).len(),
        parse_document_spec(lex_document(s1)->Ok_0)[line_at(s1, o1) - 1] == parse_document_spec(
            lex_document(s2)->Ok_0,
        )[line_at(s2, o2) - 1],
{
    lemma_document_line_at(s1, o1);
    lemma_document_line_at(s2, o2);
    lemma_line_at_monotone(s1, 0, o1);
    lemma_line_at_monotone(s2, 0, o2);
    lemma_lex_from_local(s1, o1, s2, o2, n, o1);
}

/// The line number at `p` depends only on the characters before `p`.
proof fn lemma_line_at_prefix(x: Seq<char>, y: Seq<char>, p: int)
    requires
        0 <= p <= x.len(),
        p <= y.len(),
        forall|i: int| 0 <= i < p ==> #[trigger] x[i] == y[i],
    ensures
        line_at(x, p) == line_at(y, p),
    decreases p,
{
    if p > 0 {
        lemma_line_at_prefix(x, y, p - 1);
    }
}

/// A line's parse depends on its own text and its line number alone: the
/// text `l` on a line after `a1` (ending in a line feed, or empty) and before
/// `b1` (starting with one, or empty) parses as it does after `a2` and
/// before `b2`, when `a1` and `a2` hold as many line feeds and both
/// documents lex. So a syntax error on one line, or any edit there, leaves
/// the parses of the other lines as they were.
pub proof fn law_line_parse_is_local(
    a1: Seq<char>,
    b1: Seq<char>,
    a2: Seq<char>,
    b2: Seq<char>,
    l: Seq<char>,
)
    requires
        !l.contains('\n'),
        a1.len() == 0 || a1.last() == '\n',
        a2.len() == 0 || a2.last() == '\n',
        b1.len() == 0 || b1[0] == '\n',
        b2.len() == 0 || b2[0] == '\n',
        line_count(a1) == line_count(a2),
        lex_document(a1 + l + b1) is Ok,
        lex_document(a2 + l + b2) is Ok,
    ensures
        ({
            let p1 = parse_document_spec(lex_document(a1 + l + b1)->Ok_0);
            let p2 = parse_document_spec(lex_document(a2 + l + b2)->Ok_0);
            &&& 1 <= line_count(a1) <= p1.len()
            &&& line_count(a2) <= p2.len()
            &&& p1[line_count(a1) - 1] == p2[line_count(a2) - 1]
        }),
{
    let s1 = a1 + l + b1;
    let s2 = a2 + l + b2;
    let o1 = a1.len() as int;
    let o2 = a2.len() as int;
    let n = l.len() as int;
    assert forall|i: int| o1 <= i < o1 + n implies #[trigger] s1[i] == s2[i - o1 + o2] && s1[i]
        != '\n' by {
        assert(s1[i] == l[i - o1]);
        assert(s2[i - o1 + o2] == l[i - o1]);
        if s1[i] == '\n' {
            assert(l.contains('\n'));
        }
    }
    if o1 + n < s1.len() {
        assert(s1[o1 + n] == b1[0]);
    }
    if o2 + n < s2.len() {
        assert(s2[o2 + n] == b2[0]);
    }
    if o1 > 0 {
        assert(s1[o1 - 1] == a1.last());
    }
    if o2 > 0 {
        assert(s2[o2 - 1] == a2.last());
    }
    assert forall|i: int| 0 <= i < o1 implies #[trigger] a1[i] == s1[i] by {}
    assert forall|i: int| 0 <= i < o2 implies #[trigger] a2[i] == s2[i] by {}
    lemma_line_at_prefix(a1, s1, o1);
    lemma_line_at_prefix(a2, s2, o2);
    lemma_same_line_same_parse(s1, o1, s2, o2, n);
}

} // verus!
