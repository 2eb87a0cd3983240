//! The parser: splits the token stream into lines and parses each line with
//! a recursive-descent grammar (assignment, tuple assignment, additive,
//! multiplicative, right-associative power, unary, postfix units and percent,
//! primaries).
use vstd::prelude::*;
use crate::ast::{BinOp, Expr, ExprV, Line, LineV, exprs_view, strings_view, lines_view, lemma_exprs_view_len};
use crate::error::{CalcError, CalcErrorV};
use crate::lexer::{
    Keyword, NumberLit, NumberLitV, Token, TokenKind, TokenKindV, TokenV, tokens_view, columns_fit,
    lex_document, line_count, newline_count, lemma_lex_from_lines, lemma_lex_from_token_lines,
    lemma_newline_count_step,
};
use crate::text::{concat_str, decimal_string, decimal_text, push_char, str_debug, str_shown};
use crate::units::{Unit, UnitV, unit_named};

verus! {

// ── Specification of the grammar ───────────────────────────────────────────

/// A parse result: the expression and the index of the first token after it.
pub type ParseResult = Result<(ExprV, int), CalcErrorV>;

/// The result of a parse that cannot happen on well-formed token streams.
pub open spec fn impossible() -> CalcErrorV {
    CalcErrorV { message: Seq::empty(), line: 0, col: 0 }
}

/// An error located at token `pos`.
pub open spec fn err_at(t: Seq<TokenV>, pos: int, msg: Seq<char>) -> CalcErrorV {
    CalcErrorV { message: msg, line: t[pos].line, col: t[pos].col }
}

/// The kind of token `pos`.
pub open spec fn tk(t: Seq<TokenV>, pos: int) -> TokenKindV {
    t[pos].kind
}

/// A token stream as a line parser sees it: it ends with `Eof` and holds no
/// other `Eof`.
pub open spec fn tokens_wf(t: Seq<TokenV>) -> bool {
    &&& t.len() >= 1
    &&& t.last().kind is Eof
    &&& forall|i: int| 0 <= i < t.len() - 1 ==> !(#[trigger] t[i].kind is Eof)
}

/// `Debug` rendering of a token kind in error messages. A number is shown
/// with its literal text (decimal) or its value (radix literals).
pub open spec fn kind_debug_text(k: TokenKindV) -> Seq<char> {
    match k {
        TokenKindV::Number(NumberLitV::Decimal(s)) => "Number("@ + s + ")"@,
        TokenKindV::Number(NumberLitV::Integer(v)) => "Number("@ + decimal_text(v as nat) + ")"@,
        TokenKindV::Ident(s) => "Ident("@ + str_shown(s) + ")"@,
        TokenKindV::Plus => "Plus"@,
        TokenKindV::Minus => "Minus"@,
        TokenKindV::Star => "Star"@,
        TokenKindV::Slash => "Slash"@,
        TokenKindV::Percent => "Percent"@,
        TokenKindV::Caret => "Caret"@,
        TokenKindV::Eq => "Eq"@,
        TokenKindV::LParen => "LParen"@,
        TokenKindV::RParen => "RParen"@,
        TokenKindV::Comma => "Comma"@,
        TokenKindV::Colon => "Colon"@,
        TokenKindV::Comment(s) => "Comment("@ + str_shown(s) + ")"@,
        TokenKindV::Keyword(Keyword::In) => "Keyword(In)"@,
        TokenKindV::Keyword(Keyword::To) => "Keyword(To)"@,
        TokenKindV::Keyword(Keyword::As) => "Keyword(As)"@,
        TokenKindV::Keyword(Keyword::Of) => "Keyword(Of)"@,
        TokenKindV::Newline => "Newline"@,
        TokenKindV::Eof => "Eof"@,
    }
}

/// The spelling of a keyword.
pub open spec fn keyword_name(k: Keyword) -> Seq<char> {
    match k {
        Keyword::In => "in"@,
        Keyword::To => "to"@,
        Keyword::As => "as"@,
        Keyword::Of => "of"@,
    }
}

/// `in`, `to` and `as` introduce a unit conversion.
pub open spec fn is_conversion_kw(k: TokenKindV) -> bool {
    k == TokenKindV::Keyword(Keyword::In) || k == TokenKindV::Keyword(Keyword::To) || k
        == TokenKindV::Keyword(Keyword::As)
}

/// The unit a name denotes, or a custom unit of that name.
pub open spec fn unit_for_name(s: Seq<char>) -> UnitV {
    match unit_named(s) {
        Some(u) => u,
        None => UnitV::Custom(s),
    }
}

/// `e (in|to|as) UNIT` where the keyword is token `pos`.
#[verifier::opaque]
pub open spec fn p_conversion(t: Seq<TokenV>, pos: int, e: ExprV) -> ParseResult {
    let q = pos + 1;
    if q < 0 || q >= t.len() {
        Err(impossible())
    } else {
        match tk(t, q) {
            TokenKindV::Ident(s) => Ok(
                (ExprV::Convert { expr: Box::new(e), target_unit: unit_for_name(s) }, q + 1),
            ),
            TokenKindV::Keyword(Keyword::In) => Ok(
                (ExprV::Convert { expr: Box::new(e), target_unit: unit_for_name("in"@) }, q + 1),
            ),
            k => Err(
                err_at(t, q, "Expected unit name after conversion keyword, got "@ + kind_debug_text(k)),
            ),
        }
    }
}

/// After a number, an identifier that names a unit (or is followed by a
/// conversion keyword) and is not a call or an assignment target becomes the
/// number's unit.
pub open spec fn attach_unit(t: Seq<TokenV>, e: ExprV, q: int) -> (ExprV, int) {
    if (e is Number) && 0 <= q < t.len() && (tk(t, q) is Ident) {
        let s = tk(t, q)->Ident_0;
        let has_next = q + 1 < t.len();
        let is_call = has_next && tk(t, q + 1) == TokenKindV::LParen;
        let is_assign = has_next && tk(t, q + 1) == TokenKindV::Eq;
        let conv = has_next && is_conversion_kw(tk(t, q + 1));
        let is_unit = unit_named(s) is Some;
        if !is_call && !is_assign && (is_unit || conv) {
            (ExprV::Convert { expr: Box::new(e), target_unit: unit_for_name(s) }, q + 1)
        } else {
            (e, q)
        }
    } else {
        (e, q)
    }
}

/// The names of a tuple pattern `a, b, ... )` from token `pos`, and the index
/// after `)`; `None` when the tokens are not such a pattern.
#[verifier::opaque]
pub open spec fn p_tuple_names(t: Seq<TokenV>, pos: int, names: Seq<Seq<char>>) -> Option<
    (Seq<Seq<char>>, int),
>
    decreases t.len() - pos,
{
    if pos < 0 || pos + 1 >= t.len() {
        None
    } else {
        match tk(t, pos) {
            TokenKindV::Ident(s) => {
                let n = names.push(s);
                match tk(t, pos + 1) {
                    TokenKindV::Comma => p_tuple_names(t, pos + 2, n),
                    TokenKindV::RParen => Some((n, pos + 2)),
                    _ => None,
                }
            },
            _ => None,
        }
    }
}

/// Top level: tuple assignment, assignment, or an additive expression.
#[verifier::opaque]
pub open spec fn p_expr(t: Seq<TokenV>, pos: int) -> ParseResult
    decreases t.len() + 2 - pos, 10int,
{
    if pos < 0 || pos >= t.len() {
        Err(impossible())
    } else {
        let tup = if tk(t, pos) == TokenKindV::LParen {
            p_tuple(t, pos)
        } else {
            Ok(None)
        };
        match tup {
            Err(e) => Err(e),
            Ok(Some(r)) => Ok(r),
            Ok(None) => {
                if (tk(t, pos) is Ident) && pos + 1 < t.len() && tk(t, pos + 1) == TokenKindV::Eq {
                    match p_expr(t, pos + 2) {
                        Ok((v, q)) => Ok(
                            (ExprV::Assign { name: tk(t, pos)->Ident_0, value: Box::new(v) }, q),
                        ),
                        Err(e) => Err(e),
                    }
                } else {
                    p_additive(t, pos)
                }
            },
        }
    }
}

/// `(a, b, ...) = (x, y, ...)` starting at the `(` at `pos`; `Ok(None)` when
/// the left side is not a tuple pattern followed by `=`.
#[verifier::opaque]
pub open spec fn p_tuple(t: Seq<TokenV>, pos: int) -> Result<Option<(ExprV, int)>, CalcErrorV>
    decreases t.len() + 2 - pos, 9int,
{
    if pos < 0 || pos >= t.len() {
        Err(impossible())
    } else {
        match p_tuple_names(t, pos + 1, Seq::empty()) {
            None => Ok(None),
            Some((names, q)) => {
                if q <= pos || q >= t.len() || tk(t, q) != TokenKindV::Eq {
                    Ok(None)
                } else {
                    match p_tuple_rhs(t, q + 1, names) {
                        Err(e) => Err(e),
                        Ok(r) => Ok(Some(r)),
                    }
                }
            },
        }
    }
}

/// The right side `(x, y, ...)` of a tuple assignment to `names`, from the
/// token after `=`.
#[verifier::opaque]
pub open spec fn p_tuple_rhs(t: Seq<TokenV>, pos: int, names: Seq<Seq<char>>) -> ParseResult
    decreases t.len() + 2 - pos, 9int,
{
    if pos < 0 || pos >= t.len() {
        Err(impossible())
    } else if tk(t, pos) != TokenKindV::LParen {
        Err(err_at(t, pos, "Expected '(' after '=' in tuple assignment"@))
    } else {
        match p_tuple_values(t, pos + 1, Seq::empty()) {
            Err(e) => Err(e),
            Ok((values, q2)) => {
                if q2 < 0 || q2 >= t.len() {
                    Err(impossible())
                } else if names.len() != values.len() {
                    Err(
                        err_at(
                            t,
                            q2,
                            "Tuple size mismatch: "@ + decimal_text(names.len()) + " names but "@
                                + decimal_text(values.len()) + " values"@,
                        ),
                    )
                } else {
                    Ok((ExprV::TupleAssign { names, values }, q2))
                }
            },
        }
    }
}

/// The value list `x, y, ... )` of a tuple assignment from `pos`.
#[verifier::opaque]
pub open spec fn p_tuple_values(t: Seq<TokenV>, pos: int, acc: Seq<ExprV>) -> Result<
    (Seq<ExprV>, int),
    CalcErrorV,
>
    decreases t.len() + 2 - pos, 11int,
{
    if pos < 0 || pos >= t.len() {
        Err(impossible())
    } else {
        match p_additive(t, pos) {
            Err(e) => Err(e),
            Ok((v, q)) => {
                if q < pos || q >= t.len() {
                    Err(impossible())
                } else {
                    let acc2 = acc.push(v);
                    match tk(t, q) {
                        TokenKindV::Comma => p_tuple_values(t, q + 1, acc2),
                        TokenKindV::RParen => Ok((acc2, q + 1)),
                        k => Err(
                            err_at(t, q, "Expected ',' or ')' in tuple values, got "@ + kind_debug_text(k)),
                        ),
                    }
                }
            },
        }
    }
}

/// `term ((+|-) term | (in|to|as) UNIT)*`.
#[verifier::opaque]
pub open spec fn p_additive(t: Seq<TokenV>, pos: int) -> ParseResult
    decreases t.len() + 2 - pos, 8int,
{
    if pos < 0 || pos >= t.len() {
        Err(impossible())
    } else {
        match p_mult(t, pos) {
            Err(e) => Err(e),
            Ok((l, q)) => if pos <= q < t.len() {
                p_add_rest(t, q, l)
            } else {
                Err(impossible())
            },
        }
    }
}

/// `X + N%` and `X - N%` add or take a percentage of `X`.
pub open spec fn combine_additive(op: BinOp, left: ExprV, right: ExprV) -> ExprV {
    match right {
        ExprV::Percentage(pct) => if op == BinOp::Add {
            ExprV::PercentAdd { base: Box::new(left), percent: pct }
        } else {
            ExprV::PercentSub { base: Box::new(left), percent: pct }
        },
        _ => ExprV::BinaryOp { op, left: Box::new(left), right: Box::new(right) },
    }
}

/// The rest of an additive expression after `left`, from token `pos`.
#[verifier::opaque]
pub open spec fn p_add_rest(t: Seq<TokenV>, pos: int, left: ExprV) -> ParseResult
    decreases t.len() + 2 - pos, 7int,
{
    if pos < 0 || pos >= t.len() {
        Err(impossible())
    } else if is_conversion_kw(tk(t, pos)) {
        match p_conversion(t, pos, left) {
            Err(e) => Err(e),
            Ok((c, q)) => if pos < q <= t.len() {
                p_add_rest(t, q, c)
            } else {
                Err(impossible())
            },
        }
    } else if tk(t, pos) == TokenKindV::Plus || tk(t, pos) == TokenKindV::Minus {
        let op = if tk(t, pos) == TokenKindV::Plus {
            BinOp::Add
        } else {
            BinOp::Sub
        };
        match p_mult(t, pos + 1) {
            Err(e) => Err(e),
            Ok((r, q)) => if pos < q <= t.len() {
                p_add_rest(t, q, combine_additive(op, left, r))
            } else {
                Err(impossible())
            },
        }
    } else {
        Ok((left, pos))
    }
}

/// `factor ((*|/|%) factor)*`.
#[verifier::opaque]
pub open spec fn p_mult(t: Seq<TokenV>, pos: int) -> ParseResult
    decreases t.len() + 2 - pos, 6int,
{
    if pos < 0 || pos >= t.len() {
        Err(impossible())
    } else {
        match p_power(t, pos) {
            Err(e) => Err(e),
            Ok((l, q)) => if pos <= q < t.len() {
                p_mult_rest(t, q, l)
            } else {
                Err(impossible())
            },
        }
    }
}

/// The multiplicative operator of a token, if it is one.
pub open spec fn mult_op(k: TokenKindV) -> Option<BinOp> {
    if k == TokenKindV::Star {
        Some(BinOp::Mul)
    } else if k == TokenKindV::Slash {
        Some(BinOp::Div)
    } else if k == TokenKindV::Percent {
        Some(BinOp::Mod)
    } else {
        None
    }
}

/// The rest of a multiplicative expression after `left`, from token `pos`.
#[verifier::opaque]
pub open spec fn p_mult_rest(t: Seq<TokenV>, pos: int, left: ExprV) -> ParseResult
    decreases t.len() + 2 - pos, 5int,
{
    if pos < 0 || pos >= t.len() {
        Err(impossible())
    } else {
        match mult_op(tk(t, pos)) {
            Some(op) => match p_power(t, pos + 1) {
                Err(e) => Err(e),
                Ok((r, q)) => if pos < q <= t.len() {
                    p_mult_rest(t, q, ExprV::BinaryOp { op, left: Box::new(left), right: Box::new(r) })
                } else {
                    Err(impossible())
                },
            },
            None => Ok((left, pos)),
        }
    }
}

/// `unary (^ power)?`: power is right-associative.
#[verifier::opaque]
pub open spec fn p_power(t: Seq<TokenV>, pos: int) -> ParseResult
    decreases t.len() + 2 - pos, 4int,
{
    if pos < 0 || pos >= t.len() {
        Err(impossible())
    } else {
        match p_unary(t, pos) {
            Err(e) => Err(e),
            Ok((b, q)) => if pos <= q < t.len() {
                if tk(t, q) == TokenKindV::Caret {
                    match p_power(t, q + 1) {
                        Err(e) => Err(e),
                        Ok((x, q2)) => Ok(
                            (ExprV::BinaryOp { op: BinOp::Pow, left: Box::new(b), right: Box::new(x) }, q2),
                        ),
                    }
                } else {
                    Ok((b, q))
                }
            } else {
                Err(impossible())
            },
        }
    }
}

/// `-unary | +unary | postfix`.
#[verifier::opaque]
pub open spec fn p_unary(t: Seq<TokenV>, pos: int) -> ParseResult
    decreases t.len() + 2 - pos, 3int,
{
    if pos < 0 || pos >= t.len() {
        Err(impossible())
    } else if tk(t, pos) == TokenKindV::Minus {
        match p_unary(t, pos + 1) {
            Err(e) => Err(e),
            Ok((x, q)) => Ok((ExprV::UnaryNeg(Box::new(x)), q)),
        }
    } else if tk(t, pos) == TokenKindV::Plus {
        match p_unary(t, pos + 1) {
            Err(e) => Err(e),
            Ok((x, q)) => Ok((ExprV::UnaryPos(Box::new(x)), q)),
        }
    } else {
        p_postfix(t, pos)
    }
}

/// A leading sign applies to the operand after it: `-x` parses to the
/// negation of what `x` parses to and `+x` to its unary plus, ending where
/// `x` ends; a sign before an operand that fails to parse fails the same way.
pub proof fn law_leading_sign(t: Seq<TokenV>, pos: int)
    requires
        0 <= pos < t.len(),
        tk(t, pos) == TokenKindV::Minus || tk(t, pos) == TokenKindV::Plus,
    ensures
        match p_unary(t, pos + 1) {
            Ok((x, q)) => p_unary(t, pos) == if tk(t, pos) == TokenKindV::Minus {
                Ok::<(ExprV, int), CalcErrorV>((ExprV::UnaryNeg(Box::new(x)), q))
            } else {
                Ok::<(ExprV, int), CalcErrorV>((ExprV::UnaryPos(Box::new(x)), q))
            },
            Err(e) => p_unary(t, pos) == Err::<(ExprV, int), CalcErrorV>(e),
        },
{
    reveal_with_fuel(p_unary, 1);
}

/// Whether token `k` can start an operand: a number, a name or `(`. A `%`
/// followed by one is the modulo operator (`17 % 5`); any other `%` after an
/// operand makes it a percentage (`20%`, `20% of 150`).
pub open spec fn starts_operand(k: TokenKindV) -> bool {
    k is Number || k is Ident || k == TokenKindV::LParen
}

/// `primary UNIT? (% (of additive)?)?`, where the `%` is not followed by an
/// operand.
#[verifier::opaque]
pub open spec fn p_postfix(t: Seq<TokenV>, pos: int) -> ParseResult
    decreases t.len() + 2 - pos, 2int,
{
    if pos < 0 || pos >= t.len() {
        Err(impossible())
    } else {
        match p_primary(t, pos) {
            Err(e) => Err(e),
            Ok((e, q)) => if pos <= q < t.len() {
                let (e2, q2) = attach_unit(t, e, q);
                if q2 < t.len() && tk(t, q2) == TokenKindV::Percent && !(q2 + 1 < t.len()
                    && starts_operand(tk(t, q2 + 1))) {
                    let q3 = q2 + 1;
                    if q3 < t.len() && tk(t, q3) == TokenKindV::Keyword(Keyword::Of) {
                        match p_additive(t, q3 + 1) {
                            Err(er) => Err(er),
                            Ok((b, q4)) => Ok(
                                (ExprV::PercentOf { percent: Box::new(e2), base: Box::new(b) }, q4),
                            ),
                        }
                    } else {
                        Ok((ExprV::Percentage(Box::new(e2)), q3))
                    }
                } else {
                    Ok((e2, q2))
                }
            } else {
                Err(impossible())
            },
        }
    }
}

/// Numbers, variables, calls `f(args)`, keywords used as names, and
/// parenthesised expressions.
#[verifier::opaque]
pub open spec fn p_primary(t: Seq<TokenV>, pos: int) -> ParseResult
    decreases t.len() + 2 - pos, 1int,
{
    if pos < 0 || pos >= t.len() {
        Err(impossible())
    } else {
        match tk(t, pos) {
            TokenKindV::Number(n) => Ok((ExprV::Number(n), pos + 1)),
            TokenKindV::Ident(name) => {
                if pos + 1 < t.len() && tk(t, pos + 1) == TokenKindV::LParen {
                    let a = pos + 2;
                    if a >= t.len() {
                        Err(impossible())
                    } else if tk(t, a) == TokenKindV::RParen {
                        Ok((ExprV::FuncCall { name, args: Seq::empty() }, a + 1))
                    } else {
                        match p_args(t, a, Seq::empty()) {
                            Err(e) => Err(e),
                            Ok((args, q)) => if 0 <= q < t.len() {
                                if tk(t, q) == TokenKindV::RParen {
                                    Ok((ExprV::FuncCall { name, args }, q + 1))
                                } else {
                                    Err(err_at(t, q, "Expected ')' after function arguments"@))
                                }
                            } else {
                                Err(impossible())
                            },
                        }
                    }
                } else {
                    Ok((ExprV::Ident(name), pos + 1))
                }
            },
            TokenKindV::Keyword(kw) => Ok((ExprV::Ident(keyword_name(kw)), pos + 1)),
            TokenKindV::LParen => match p_expr(t, pos + 1) {
                Err(e) => Err(e),
                Ok((inner, q)) => if 0 <= q < t.len() {
                    if tk(t, q) == TokenKindV::RParen {
                        Ok((inner, q + 1))
                    } else {
                        Err(err_at(t, q, "Expected ')'"@))
                    }
                } else {
                    Err(impossible())
                },
            },
            TokenKindV::Eof => Err(err_at(t, pos, "Unexpected end of expression"@)),
            k => Err(err_at(t, pos, "Unexpected token in expression: "@ + kind_debug_text(k))),
        }
    }
}

/// A comma-separated argument list from token `pos` (up to, not including,
/// the closing parenthesis).
#[verifier::opaque]
pub open spec fn p_args(t: Seq<TokenV>, pos: int, acc: Seq<ExprV>) -> Result<(Seq<ExprV>, int), CalcErrorV>
    decreases t.len() + 2 - pos, 11int,
{
    if pos < 0 || pos >= t.len() {
        Err(impossible())
    } else {
        match p_expr(t, pos) {
            Err(e) => Err(e),
            Ok((a, q)) => if pos <= q < t.len() {
                if tk(t, q) == TokenKindV::Comma {
                    p_args(t, q + 1, acc.push(a))
                } else {
                    Ok((acc.push(a), q))
                }
            } else {
                Err(impossible())
            },
        }
    }
}


// ── The line parser ────────────────────────────────────────────────────────

/// Whether an executable parse result agrees with the grammar's result, the
/// parser having stopped at token `pos`.
pub open spec fn parsed(r: Result<Expr, CalcError>, pos: usize, s: ParseResult) -> bool {
    match r {
        Ok(e) => s == Ok::<(ExprV, int), CalcErrorV>((e@, pos as int)),
        Err(er) => s == Err::<(ExprV, int), CalcErrorV>(er@),
    }
}

/// The remaining arguments after an argument that ended at token `q`.
pub open spec fn args_after(t: Seq<TokenV>, q: int, acc: Seq<ExprV>) -> Result<(Seq<ExprV>, int), CalcErrorV> {
    if 0 <= q < t.len() && tk(t, q) == TokenKindV::Comma {
        p_args(t, q + 1, acc)
    } else {
        Ok((acc, q))
    }
}

/// `Debug` rendering of a token kind (see `kind_debug_text`).
pub fn kind_debug(k: &TokenKind) -> (r: String)
    ensures
        r@ == kind_debug_text(k@),
{
    match k {
        TokenKind::Number(NumberLit::Decimal(s)) => {
            let mut r = concat_str("Number(", s.as_str());
            r.append(")");
            r
        },
        TokenKind::Number(NumberLit::Integer(v)) => {
            let d = decimal_string_u64(*v);
            let mut r = concat_str("Number(", d.as_str());
            r.append(")");
            r
        },
        TokenKind::Ident(s) => {
            let d = str_debug(s.as_str());
            let mut r = concat_str("Ident(", d.as_str());
            r.append(")");
            r
        },
        TokenKind::Plus => String::from_str("Plus"),
        TokenKind::Minus => String::from_str("Minus"),
        TokenKind::Star => String::from_str("Star"),
        TokenKind::Slash => String::from_str("Slash"),
        TokenKind::Percent => String::from_str("Percent"),
        TokenKind::Caret => String::from_str("Caret"),
        TokenKind::Eq => String::from_str("Eq"),
        TokenKind::LParen => String::from_str("LParen"),
        TokenKind::RParen => String::from_str("RParen"),
        TokenKind::Comma => String::from_str("Comma"),
        TokenKind::Colon => String::from_str("Colon"),
        TokenKind::Comment(s) => {
            let d = str_debug(s.as_str());
            let mut r = concat_str("Comment(", d.as_str());
            r.append(")");
            r
        },
        TokenKind::Keyword(Keyword::In) => String::from_str("Keyword(In)"),
        TokenKind::Keyword(Keyword::To) => String::from_str("Keyword(To)"),
        TokenKind::Keyword(Keyword::As) => String::from_str("Keyword(As)"),
        TokenKind::Keyword(Keyword::Of) => String::from_str("Keyword(Of)"),
        TokenKind::Newline => String::from_str("Newline"),
        TokenKind::Eof => String::from_str("Eof"),
    }
}

/// Decimal rendering of a `u64`.
fn decimal_string_u64(n: u64) -> (s: String)
    ensures
        s@ == decimal_text(n as nat),
    decreases n,
{
    let mut s = if n < 10 {
        String::new()
    } else {
        decimal_string_u64(n / 10)
    };
    let d: u8 = (n % 10) as u8;
    push_char(&mut s, (48u8 + d) as char);
    s
}

struct LineParser {
    tokens: Vec<Token>,
    pos: usize,
}

impl LineParser {
    spec fn tv(&self) -> Seq<TokenV> {
        tokens_view(self.tokens@)
    }

    spec fn wf(&self) -> bool {
        tokens_wf(self.tv()) && self.pos < self.tokens.len()
    }

    fn peek(&self) -> (r: &Token)
        requires
            self.wf(),
        ensures
            r@ == self.tv()[self.pos as int],
    {
        &self.tokens[self.pos]
    }

    fn peek_offset(&self, offset: usize) -> (r: Option<&Token>)
        requires
            self.wf(),
            offset <= 1,
        ensures
            self.pos + offset < self.tokens.len() ==> (r matches Some(x) && x@ == self.tv()[self.pos + offset]),
            self.pos + offset >= self.tokens.len() ==> r is None,
    {
        if self.pos + offset < self.tokens.len() {
            Some(&self.tokens[self.pos + offset])
        } else {
            None
        }
    }

    fn advance(&mut self)
        requires
            old(self).wf(),
        ensures
            final(self).wf(),
            final(self).tokens@ == old(self).tokens@,
            !(old(self).tv()[old(self).pos as int].kind is Eof) ==> final(self).pos == old(self).pos + 1,
            final(self).pos >= old(self).pos,
    {
        if self.pos + 1 < self.tokens.len() {
            self.pos = self.pos + 1;
        }
    }

    fn error_here(&self, msg: String) -> (r: CalcError)
        requires
            self.wf(),
        ensures
            r@ == err_at(self.tv(), self.pos as int, msg@),
    {
        let tok = self.peek();
        CalcError::new(msg, tok.line, tok.col)
    }

    fn is_conversion_keyword(&self) -> (r: bool)
        requires
            self.wf(),
        ensures
            r == is_conversion_kw(tk(self.tv(), self.pos as int)),
    {
        matches!(
            self.peek().kind,
            TokenKind::Keyword(Keyword::In) | TokenKind::Keyword(Keyword::To) | TokenKind::Keyword(Keyword::As)
        )
    }

    fn peek_ident(&self) -> (r: Option<String>)
        requires
            self.wf(),
        ensures
            match tk(self.tv(), self.pos as int) {
                TokenKindV::Ident(s) => r matches Some(x) && x@ == s,
                _ => r is None,
            },
    {
        match &self.peek().kind {
            TokenKind::Ident(s) => Some(s.clone()),
            _ => None,
        }
    }

    fn parse_conversion(&mut self, expr: Expr) -> (r: Result<Expr, CalcError>)
        requires
            old(self).wf(),
            is_conversion_kw(tk(old(self).tv(), old(self).pos as int)),
        ensures
            final(self).wf(),
            final(self).tokens@ == old(self).tokens@,
            parsed(r, final(self).pos, p_conversion(old(self).tv(), old(self).pos as int, expr@)),
            r is Ok ==> old(self).pos < final(self).pos,
    {
        reveal_with_fuel(p_conversion, 1);
        self.advance();
        let unit_str = match &self.peek().kind {
            TokenKind::Ident(s) => s.clone(),
            TokenKind::Keyword(Keyword::In) => String::from_str("in"),
            other => {
                let d = kind_debug(other);
                let msg = concat_str("Expected unit name after conversion keyword, got ", d.as_str());
                return Err(self.error_here(msg));
            },
        };
        self.advance();
        let unit = match Unit::from_str(unit_str.as_str()) {
            Some(u) => u,
            None => Unit::Custom(unit_str),
        };
        Ok(Expr::Convert { expr: Box::new(expr), target_unit: unit })
    }
}


impl LineParser {
    fn parse_expr(&mut self) -> (r: Result<Expr, CalcError>)
        requires
            old(self).wf(),
        ensures
            final(self).wf(),
            final(self).tokens@ == old(self).tokens@,
            parsed(r, final(self).pos, p_expr(old(self).tv(), old(self).pos as int)),
            r is Ok ==> old(self).pos <= final(self).pos,
        decreases old(self).tokens@.len() + 2 - old(self).pos, 10int,
    {
        reveal_with_fuel(p_expr, 1);
        reveal_with_fuel(p_tuple, 1);
        reveal_with_fuel(p_additive, 1);
        let ghost t = self.tv();
        let ghost p = self.pos as int;
        if matches!(self.peek().kind, TokenKind::LParen) {
            match self.try_parse_tuple_assign() {
                Err(e) => {
                    return Err(e);
                },
                Ok(Some(tuple)) => {
                    return Ok(tuple);
                },
                Ok(None) => {},
            }
        }
        match self.peek_ident() {
            Some(name) => {
                let next_is_eq = match self.peek_offset(1) {
                    Some(n) => matches!(n.kind, TokenKind::Eq),
                    None => false,
                };
                if next_is_eq {
                    self.advance();
                    self.advance();
                    return match self.parse_expr() {
                        Ok(value) => Ok(Expr::Assign { name, value: Box::new(value) }),
                        Err(e) => Err(e),
                    };
                }
            },
            None => {},
        }
        self.parse_additive()
    }

    /// Reads `a, b, ... )` after a `(`; `None` (position unspecified) when the
    /// tokens are not such a pattern.
    fn parse_tuple_names(&mut self) -> (r: Option<Vec<String>>)
        requires
            old(self).wf(),
        ensures
            final(self).wf(),
            final(self).tokens@ == old(self).tokens@,
            match p_tuple_names(old(self).tv(), old(self).pos as int, Seq::empty()) {
                None => r is None,
                Some((names, q)) => r matches Some(x) && strings_view(x@) == names && final(self).pos
                    == q,
            },
    {
        let ghost t = self.tv();
        let ghost p = self.pos as int;
        let mut names: Vec<String> = Vec::new();
        assert(strings_view(names@) =~= Seq::<Seq<char>>::empty());
        loop
            invariant_except_break
                p_tuple_names(t, p, Seq::empty()) == p_tuple_names(
                    t,
                    self.pos as int,
                    strings_view(names@),
                ),
            invariant
                self.wf(),
                self.tokens@ == old(self).tokens@,
                t == self.tv(),
                p == old(self).pos,
            ensures
                self.wf(),
                self.tokens@ == old(self).tokens@,
                p_tuple_names(t, p, Seq::empty()) == Some(
                    (strings_view(names@), self.pos as int),
                ),
            decreases self.tokens.len() - self.pos,
        {
            reveal_with_fuel(p_tuple_names, 1);
            let ghost before = strings_view(names@);
            match self.peek_ident() {
                Some(s) => {
                    names.push(s);
                    assert(strings_view(names@) =~= before.push(s@));
                    self.advance();
                },
                None => {
                    return None;
                },
            }
            let is_comma = matches!(self.peek().kind, TokenKind::Comma);
            let is_rparen = matches!(self.peek().kind, TokenKind::RParen);
            if is_comma {
                self.advance();
            } else if is_rparen {
                self.advance();
                break;
            } else {
                return None;
            }
        }
        Some(names)
    }

    /// Reads `x, y, ... )`: additive expressions separated by commas.
    fn parse_tuple_values(&mut self) -> (r: Result<Vec<Expr>, CalcError>)
        requires
            old(self).wf(),
        ensures
            final(self).wf(),
            final(self).tokens@ == old(self).tokens@,
            match p_tuple_values(old(self).tv(), old(self).pos as int, Seq::empty()) {
                Ok((vs, q)) => r matches Ok(x) && exprs_view(x@) == vs && final(self).pos == q,
                Err(e) => r matches Err(x) && x@ == e,
            },
            r is Ok ==> old(self).pos <= final(self).pos,
        decreases old(self).tokens@.len() + 2 - old(self).pos, 11int,
    {
        let ghost t = self.tv();
        let ghost p = self.pos as int;
        let mut values: Vec<Expr> = Vec::new();
        assert(exprs_view(values@) =~= Seq::<ExprV>::empty());
        loop
            invariant_except_break
                p_tuple_values(t, p, Seq::empty()) == p_tuple_values(
                    t,
                    self.pos as int,
                    exprs_view(values@),
                ),
            invariant
                self.wf(),
                self.tokens@ == old(self).tokens@,
                t == self.tv(),
                p == old(self).pos,
                p <= self.pos,
            ensures
                self.wf(),
                self.tokens@ == old(self).tokens@,
                p <= self.pos,
                p_tuple_values(t, p, Seq::empty()) == Ok::<(Seq<ExprV>, int), CalcErrorV>(
                    (exprs_view(values@), self.pos as int),
                ),
            decreases self.tokens.len() - self.pos,
        {
            reveal_with_fuel(p_tuple_values, 1);
            reveal_with_fuel(p_additive, 1);
            let ghost before = exprs_view(values@);
            let expr = match self.parse_additive() {
                Ok(e) => e,
                Err(e) => {
                    return Err(e);
                },
            };
            let ghost ev = expr@;
            let ghost vals_before = values@;
            values.push(expr);
            assert(exprs_view(values@) =~= before.push(ev)) by {
                assert(values@.drop_last() =~= vals_before);
            }
            if matches!(self.peek().kind, TokenKind::Comma) {
                self.advance();
            } else if matches!(self.peek().kind, TokenKind::RParen) {
                self.advance();
                break;
            } else {
                let d = kind_debug(&self.peek().kind);
                let msg = concat_str("Expected ',' or ')' in tuple values, got ", d.as_str());
                return Err(self.error_here(msg));
            }
        }
        Ok(values)
    }

    fn try_parse_tuple_assign(&mut self) -> (r: Result<Option<Expr>, CalcError>)
        requires
            old(self).wf(),
            tk(old(self).tv(), old(self).pos as int) == TokenKindV::LParen,
        ensures
            final(self).wf(),
            final(self).tokens@ == old(self).tokens@,
            match p_tuple(old(self).tv(), old(self).pos as int) {
                Ok(None) => r matches Ok(None) && final(self).pos == old(self).pos,
                Ok(Some((e, q))) => r matches Ok(Some(x)) && x@ == e && final(self).pos == q
                    && old(self).pos <= q,
                Err(er) => r matches Err(x) && x@ == er,
            },
        decreases old(self).tokens@.len() + 2 - old(self).pos, 9int,
    {
        reveal_with_fuel(p_tuple, 1);
        reveal_with_fuel(p_tuple_rhs, 1);
        let save_pos = self.pos;
        self.advance();
        let names = match self.parse_tuple_names() {
            Some(n) => n,
            None => {
                self.pos = save_pos;
                return Ok(None);
            },
        };
        if self.pos <= save_pos || !matches!(self.peek().kind, TokenKind::Eq) {
            self.pos = save_pos;
            return Ok(None);
        }
        self.advance();
        match self.parse_tuple_rhs(names) {
            Ok(e) => Ok(Some(e)),
            Err(e) => Err(e),
        }
    }

    #[verifier::spinoff_prover]
    #[verifier::rlimit(60)]
    fn parse_tuple_rhs(&mut self, names: Vec<String>) -> (r: Result<Expr, CalcError>)
        requires
            old(self).wf(),
        ensures
            final(self).wf(),
            final(self).tokens@ == old(self).tokens@,
            parsed(r, final(self).pos, p_tuple_rhs(old(self).tv(), old(self).pos as int, strings_view(names@))),
            r is Ok ==> old(self).pos <= final(self).pos,
        decreases old(self).tokens@.len() + 2 - old(self).pos, 9int,
    {
        reveal_with_fuel(p_tuple_rhs, 1);
        reveal_with_fuel(p_tuple_values, 1);
        if !matches!(self.peek().kind, TokenKind::LParen) {
            return Err(self.error_here(String::from_str("Expected '(' after '=' in tuple assignment")));
        }
        self.advance();
        let values = match self.parse_tuple_values() {
            Ok(v) => v,
            Err(e) => {
                return Err(e);
            },
        };
        proof {
            lemma_exprs_view_len(values@);
            assert(strings_view(names@).len() == names@.len());
        }
        if names.len() != values.len() {
            let n1 = decimal_string(names.len());
            let n2 = decimal_string(values.len());
            let mut msg = concat_str("Tuple size mismatch: ", n1.as_str());
            msg.append(" names but ");
            msg.append(n2.as_str());
            msg.append(" values");
            return Err(self.error_here(msg));
        }
        Ok(Expr::TupleAssign { names, values })
    }
}


impl LineParser {
    fn parse_additive(&mut self) -> (r: Result<Expr, CalcError>)
        requires
            old(self).wf(),
        ensures
            final(self).wf(),
            final(self).tokens@ == old(self).tokens@,
            parsed(r, final(self).pos, p_additive(old(self).tv(), old(self).pos as int)),
            r is Ok ==> old(self).pos <= final(self).pos,
        decreases old(self).tokens@.len() + 2 - old(self).pos, 8int,
    {
        reveal_with_fuel(p_additive, 1);
        reveal_with_fuel(p_add_rest, 1);
        reveal_with_fuel(p_mult, 1);
        let ghost t = self.tv();
        let ghost p = self.pos as int;
        let mut left = match self.parse_multiplicative() {
            Ok(e) => e,
            Err(e) => {
                return Err(e);
            },
        };
        loop
            invariant
                self.wf(),
                self.tokens@ == old(self).tokens@,
                t == self.tv(),
                p == old(self).pos,
                p <= self.pos,
                p_additive(t, p) == p_add_rest(t, self.pos as int, left@),
            decreases self.tokens.len() - self.pos,
        {
            reveal_with_fuel(p_add_rest, 1);
            reveal_with_fuel(p_mult, 1);
            if self.is_conversion_keyword() {
                match self.parse_conversion(left) {
                    Ok(c) => {
                        left = c;
                    },
                    Err(e) => {
                        return Err(e);
                    },
                }
                continue;
            }
            let op = if matches!(self.peek().kind, TokenKind::Plus) {
                BinOp::Add
            } else if matches!(self.peek().kind, TokenKind::Minus) {
                BinOp::Sub
            } else {
                return Ok(left);
            };
            self.advance();
            let right = match self.parse_multiplicative() {
                Ok(e) => e,
                Err(e) => {
                    return Err(e);
                },
            };
            left = match right {
                Expr::Percentage(pct) => if op == BinOp::Add {
                    Expr::PercentAdd { base: Box::new(left), percent: pct }
                } else {
                    Expr::PercentSub { base: Box::new(left), percent: pct }
                },
                other => Expr::BinaryOp { op, left: Box::new(left), right: Box::new(other) },
            };
        }
    }

    fn parse_multiplicative(&mut self) -> (r: Result<Expr, CalcError>)
        requires
            old(self).wf(),
        ensures
            final(self).wf(),
            final(self).tokens@ == old(self).tokens@,
            parsed(r, final(self).pos, p_mult(old(self).tv(), old(self).pos as int)),
            r is Ok ==> old(self).pos <= final(self).pos,
        decreases old(self).tokens@.len() + 2 - old(self).pos, 6int,
    {
        reveal_with_fuel(p_mult, 1);
        reveal_with_fuel(p_mult_rest, 1);
        reveal_with_fuel(p_power, 1);
        let ghost t = self.tv();
        let ghost p = self.pos as int;
        let mut left = match self.parse_power() {
            Ok(e) => e,
            Err(e) => {
                return Err(e);
            },
        };
        loop
            invariant
                self.wf(),
                self.tokens@ == old(self).tokens@,
                t == self.tv(),
                p == old(self).pos,
                p <= self.pos,
                p_mult(t, p) == p_mult_rest(t, self.pos as int, left@),
            decreases self.tokens.len() - self.pos,
        {
            reveal_with_fuel(p_mult_rest, 1);
            reveal_with_fuel(p_power, 1);
            let op = if matches!(self.peek().kind, TokenKind::Star) {
                BinOp::Mul
            } else if matches!(self.peek().kind, TokenKind::Slash) {
                BinOp::Div
            } else if matches!(self.peek().kind, TokenKind::Percent) {
                BinOp::Mod
            } else {
                return Ok(left);
            };
            self.advance();
            let right = match self.parse_power() {
                Ok(e) => e,
                Err(e) => {
                    return Err(e);
                },
            };
            left = Expr::BinaryOp { op, left: Box::new(left), right: Box::new(right) };
        }
    }

    fn parse_power(&mut self) -> (r: Result<Expr, CalcError>)
        requires
            old(self).wf(),
        ensures
            final(self).wf(),
            final(self).tokens@ == old(self).tokens@,
            parsed(r, final(self).pos, p_power(old(self).tv(), old(self).pos as int)),
            r is Ok ==> old(self).pos <= final(self).pos,
        decreases old(self).tokens@.len() + 2 - old(self).pos, 4int,
    {
        reveal_with_fuel(p_power, 1);
        reveal_with_fuel(p_unary, 1);
        let base = match self.parse_unary() {
            Ok(e) => e,
            Err(e) => {
                return Err(e);
            },
        };
        if matches!(self.peek().kind, TokenKind::Caret) {
            self.advance();
            let exp = match self.parse_power() {
                Ok(e) => e,
                Err(e) => {
                    return Err(e);
                },
            };
            return Ok(Expr::BinaryOp { op: BinOp::Pow, left: Box::new(base), right: Box::new(exp) });
        }
        Ok(base)
    }

    fn parse_unary(&mut self) -> (r: Result<Expr, CalcError>)
        requires
            old(self).wf(),
        ensures
            final(self).wf(),
            final(self).tokens@ == old(self).tokens@,
            parsed(r, final(self).pos, p_unary(old(self).tv(), old(self).pos as int)),
            r is Ok ==> old(self).pos <= final(self).pos,
        decreases old(self).tokens@.len() + 2 - old(self).pos, 3int,
    {
        reveal_with_fuel(p_unary, 1);
        reveal_with_fuel(p_postfix, 1);
        if matches!(self.peek().kind, TokenKind::Minus) {
            self.advance();
            return match self.parse_unary() {
                Ok(inner) => Ok(Expr::UnaryNeg(Box::new(inner))),
                Err(e) => Err(e),
            };
        }
        if matches!(self.peek().kind, TokenKind::Plus) {
            self.advance();
            return match self.parse_unary() {
                Ok(inner) => Ok(Expr::UnaryPos(Box::new(inner))),
                Err(e) => Err(e),
            };
        }
        self.parse_postfix()
    }

    #[verifier::spinoff_prover]
    fn parse_postfix(&mut self) -> (r: Result<Expr, CalcError>)
        requires
            old(self).wf(),
        ensures
            final(self).wf(),
            final(self).tokens@ == old(self).tokens@,
            parsed(r, final(self).pos, p_postfix(old(self).tv(), old(self).pos as int)),
            r is Ok ==> old(self).pos <= final(self).pos,
        decreases old(self).tokens@.len() + 2 - old(self).pos, 2int,
    {
        reveal_with_fuel(p_postfix, 1);
        reveal_with_fuel(p_primary, 1);
        reveal_with_fuel(p_additive, 1);
        let ghost t = self.tv();
        let mut expr = match self.parse_primary() {
            Ok(e) => e,
            Err(e) => {
                return Err(e);
            },
        };
        let ghost q = self.pos as int;
        let ghost e0 = expr@;
        // A unit name right after a number: "5 km", "100 MB".
        if matches!(expr, Expr::Number(_)) {
            match self.peek_ident() {
                Some(s) => {
                    let (is_call, is_assign, conv) = match self.peek_offset(1) {
                        Some(n) => (
                            matches!(n.kind, TokenKind::LParen),
                            matches!(n.kind, TokenKind::Eq),
                            matches!(
                                n.kind,
                                TokenKind::Keyword(Keyword::In) | TokenKind::Keyword(Keyword::To)
                                    | TokenKind::Keyword(Keyword::As)
                            ),
                        ),
                        None => (false, false, false),
                    };
                    let known = Unit::from_str(s.as_str());
                    let is_unit = known.is_some();
                    if !is_call && !is_assign && (is_unit || conv) {
                        let unit = match known {
                            Some(u) => u,
                            None => Unit::Custom(s),
                        };
                        self.advance();
                        expr = Expr::Convert { expr: Box::new(expr), target_unit: unit };
                    }
                },
                None => {},
            }
        }
        assert(attach_unit(t, e0, q) == (expr@, self.pos as int));
        // Postfix percent: "N%" or "N% of X"; a `%` before an operand is
        // the modulo operator, left to the multiplicative level.
        let modulo = match self.peek_offset(1) {
            Some(n) => matches!(n.kind, TokenKind::Number(_) | TokenKind::Ident(_) | TokenKind::LParen),
            None => false,
        };
        if matches!(self.peek().kind, TokenKind::Percent) && !modulo {
            self.advance();
            if matches!(self.peek().kind, TokenKind::Keyword(Keyword::Of)) {
                self.advance();
                let base = match self.parse_additive() {
                    Ok(b) => b,
                    Err(e) => {
                        return Err(e);
                    },
                };
                return Ok(Expr::PercentOf { percent: Box::new(expr), base: Box::new(base) });
            }
            expr = Expr::Percentage(Box::new(expr));
        }
        Ok(expr)
    }

    #[verifier::spinoff_prover]
    #[verifier::loop_isolation(false)]
    fn parse_primary(&mut self) -> (r: Result<Expr, CalcError>)
        requires
            old(self).wf(),
        ensures
            final(self).wf(),
            final(self).tokens@ == old(self).tokens@,
            parsed(r, final(self).pos, p_primary(old(self).tv(), old(self).pos as int)),
            r is Ok ==> old(self).pos < final(self).pos,
        decreases old(self).tokens@.len() + 2 - old(self).pos, 1int,
    {
        reveal_with_fuel(p_primary, 1);
        reveal_with_fuel(p_args, 1);
        reveal_with_fuel(p_expr, 1);
        let ghost t = self.tv();
        let ghost p = self.pos as int;
        let kind = self.peek().kind.duplicate();
        match kind {
            TokenKind::Number(n) => {
                self.advance();
                Ok(Expr::Number(n))
            },
            TokenKind::Ident(name) => {
                self.advance();
                if matches!(self.peek().kind, TokenKind::LParen) {
                    self.advance();
                    let ghost a = self.pos as int;
                    let mut args: Vec<Expr> = Vec::new();
                    if !matches!(self.peek().kind, TokenKind::RParen) {
                        assert(exprs_view(args@) =~= Seq::<ExprV>::empty());
                        let first = match self.parse_expr() {
                            Ok(e) => e,
                            Err(e) => {
                                return Err(e);
                            },
                        };
                        let ghost fv = first@;
                        args.push(first);
                        assert(exprs_view(args@) =~= seq![fv]) by {
                            assert(args@.drop_last() =~= Seq::<Expr>::empty());
                        }
                        assert(p_args(t, a, Seq::empty()) == args_after(
                            t,
                            self.pos as int,
                            exprs_view(args@),
                        ));
                        while matches!(self.peek().kind, TokenKind::Comma)
                            invariant
                                self.wf(),
                                self.tokens@ == old(self).tokens@,
                                t == self.tv(),
                                p == old(self).pos,
                                p < a <= self.pos,
                                p_args(t, a, Seq::empty()) == args_after(
                                    t,
                                    self.pos as int,
                                    exprs_view(args@),
                                ),
                            decreases self.tokens.len() - self.pos,
                        {
                            reveal_with_fuel(p_args, 1);
                            reveal_with_fuel(p_expr, 1);
                            reveal_with_fuel(p_primary, 1);
                            let ghost before = exprs_view(args@);
                            let ghost args_before = args@;
                            self.advance();
                            let e = match self.parse_expr() {
                                Ok(e) => e,
                                Err(e) => {
                                    return Err(e);
                                },
                            };
                            let ghost ev = e@;
                            args.push(e);
                            assert(exprs_view(args@) =~= before.push(ev)) by {
                                assert(args@.drop_last() =~= args_before);
                            }
                        }
                    }
                    if !matches!(self.peek().kind, TokenKind::RParen) {
                        return Err(self.error_here(String::from_str("Expected ')' after function arguments")));
                    }
                    self.advance();
                    return Ok(Expr::FuncCall { name, args });
                }
                Ok(Expr::Ident(name))
            },
            TokenKind::Keyword(kw) => {
                let name = match kw {
                    Keyword::In => String::from_str("in"),
                    Keyword::To => String::from_str("to"),
                    Keyword::As => String::from_str("as"),
                    Keyword::Of => String::from_str("of"),
                };
                self.advance();
                Ok(Expr::Ident(name))
            },
            TokenKind::LParen => {
                self.advance();
                let inner = match self.parse_expr() {
                    Ok(e) => e,
                    Err(e) => {
                        return Err(e);
                    },
                };
                if !matches!(self.peek().kind, TokenKind::RParen) {
                    return Err(self.error_here(String::from_str("Expected ')'")));
                }
                self.advance();
                Ok(inner)
            },
            TokenKind::Eof => Err(self.error_here(String::from_str("Unexpected end of expression"))),
            other => {
                let d = kind_debug(&other);
                let msg = concat_str("Unexpected token in expression: ", d.as_str());
                Err(self.error_here(msg))
            },
        }
    }
}



// ── Lines and documents ────────────────────────────────────────────────────

/// How a token reads inside a label: identifiers and keywords as written,
/// other tokens by their `Debug` rendering.
pub open spec fn token_text(k: TokenKindV) -> Seq<char> {
    match k {
        TokenKindV::Ident(s) => s,
        TokenKindV::Keyword(kw) => keyword_name(kw),
        _ => kind_debug_text(k),
    }
}

/// `ws` joined with single spaces.
pub open spec fn join_words(ws: Seq<Seq<char>>) -> Seq<char>
    decreases ws.len(),
{
    if ws.len() == 0 {
        Seq::empty()
    } else if ws.len() == 1 {
        ws[0]
    } else {
        join_words(ws.drop_last()) + seq![' '] + ws.last()
    }
}

/// The text of a label made of tokens `t` (without the final colon).
pub open spec fn label_of(t: Seq<TokenV>) -> Seq<char> {
    join_words(t.map_values(|x: TokenV| token_text(x.kind)))
}

/// A line's tokens with the end marker that the expression parser expects:
/// an `Eof` one column after the last token (at 1:1 on an empty line).
pub open spec fn line_stream(t: Seq<TokenV>) -> Seq<TokenV> {
    if t.len() > 0 && (t.last().kind is Eof) {
        t
    } else if t.len() > 0 {
        t.push(TokenV { kind: TokenKindV::Eof, line: t.last().line, col: t.last().col + 1 })
    } else {
        t.push(TokenV { kind: TokenKindV::Eof, line: 1, col: 1 })
    }
}

/// The meaning of one line's tokens: empty, a comment, a label (a line
/// ending in `:`), or an expression.
pub open spec fn parse_line_spec(t: Seq<TokenV>) -> Result<LineV, CalcErrorV> {
    if t.len() == 0 {
        Ok(LineV::Empty)
    } else if t[0].kind is Comment {
        Ok(LineV::Comment(t[0].kind->Comment_0))
    } else if t.len() >= 2 && t.last().kind == TokenKindV::Colon {
        Ok(LineV::Label(label_of(t.drop_last())))
    } else if t.len() == 1 && t[0].kind == TokenKindV::Colon {
        Ok(LineV::Label(Seq::empty()))
    } else {
        match p_expr(line_stream(t), 0) {
            Ok((e, _)) => Ok(LineV::Expr(e)),
            Err(er) => Err(er),
        }
    }
}

/// The tokens of `t` from index `i` split into lines at `Newline`, stopping
/// at `Eof`; `cur` is the line being collected, `acc` the lines before it.
pub open spec fn split_lines(t: Seq<TokenV>, i: int, cur: Seq<TokenV>, acc: Seq<Seq<TokenV>>) -> Seq<
    Seq<TokenV>,
>
    decreases t.len() - i,
{
    if i < 0 || i >= t.len() {
        if cur.len() > 0 {
            acc.push(cur)
        } else {
            acc
        }
    } else if t[i].kind == TokenKindV::Newline {
        split_lines(t, i + 1, Seq::empty(), acc.push(cur))
    } else if t[i].kind == TokenKindV::Eof {
        acc.push(cur)
    } else {
        split_lines(t, i + 1, cur.push(t[i]), acc)
    }
}

/// The lines of a token stream.
pub open spec fn document_lines(t: Seq<TokenV>) -> Seq<Seq<TokenV>> {
    split_lines(t, 0, Seq::empty(), Seq::empty())
}

/// Splitting a stream that ends with its one end marker gives one line more
/// than the `Newline` tokens from `i` on, after the lines in `acc`.
proof fn lemma_split_lines_count(t: Seq<TokenV>, i: int, cur: Seq<TokenV>, acc: Seq<Seq<TokenV>>)
    requires
        0 <= i < t.len(),
        t.last().kind is Eof,
        forall|j: int| 0 <= j < t.len() - 1 ==> !(#[trigger] t[j].kind is Eof),
    ensures
        split_lines(t, i, cur, acc).len() == acc.len() + 1 + newline_count(t.subrange(i, t.len() as int)),
    decreases t.len() - i,
{
    let sub = t.subrange(i, t.len() as int);
    assert(sub.drop_first() =~= t.subrange(i + 1, t.len() as int));
    assert(sub[0] == t[i]);
    if t[i].kind == TokenKindV::Newline {
        lemma_split_lines_count(t, i + 1, Seq::empty(), acc.push(cur));
    } else if t[i].kind == TokenKindV::Eof {
        assert(i == t.len() - 1);
        assert(newline_count(sub.drop_first()) == 0) by {
            assert(sub.drop_first() =~= Seq::<TokenV>::empty());
        }
    } else {
        lemma_split_lines_count(t, i + 1, cur.push(t[i]), acc);
    }
}

/// A document whose lexing succeeds parses into one line per line of its
/// text: one more than its line feeds.
pub proof fn lemma_document_line_count(s: Seq<char>)
    requires
        lex_document(s) is Ok,
    ensures
        lex_document(s) matches Ok(ts) && parse_document_spec(ts).len() == line_count(s),
{
    lemma_lex_from_lines(s, 0);
    let ts = lex_document(s)->Ok_0;
    lemma_split_lines_count(ts, 0, Seq::empty(), Seq::empty());
    assert(ts.subrange(0, ts.len() as int) =~= ts);
}

/// Every token a stream's split puts in line `m` carries line `base + m`,
/// when each token carries `base` plus the `Newline` tokens before it.
proof fn lemma_split_lines_tags(
    t: Seq<TokenV>,
    i: int,
    cur: Seq<TokenV>,
    acc: Seq<Seq<TokenV>>,
    base: nat,
)
    requires
        0 <= i < t.len(),
        t.last().kind is Eof,
        forall|j: int| 0 <= j < t.len() - 1 ==> !(#[trigger] t[j].kind is Eof),
        forall|j: int| 0 <= j < t.len() ==> #[trigger] t[j].line == base + newline_count(t.take(j)),
        newline_count(t.take(i)) == acc.len(),
        forall|m: int, k: int|
            0 <= m < acc.len() && 0 <= k < acc[m].len() ==> #[trigger] acc[m][k].line == base + m,
        forall|k: int| 0 <= k < cur.len() ==> #[trigger] cur[k].line == base + acc.len(),
    ensures
        forall|m: int, k: int|
            0 <= m < split_lines(t, i, cur, acc).len() && 0 <= k < split_lines(t, i, cur, acc)[m].len()
                ==> #[trigger] split_lines(t, i, cur, acc)[m][k].line == base + m,
    decreases t.len() - i,
{
    lemma_newline_count_step(t, i);
    let line_i = t[i].line;
    assert(line_i == base + newline_count(t.take(i)));
    if t[i].kind == TokenKindV::Newline {
        let acc2 = acc.push(cur);
        assert forall|m: int, k: int| 0 <= m < acc2.len() && 0 <= k < acc2[m].len() implies #[trigger] acc2[m][k].line
            == base + m by {
            if m < acc.len() {
                assert(acc2[m] == acc[m]);
            }
        }
        lemma_split_lines_tags(t, i + 1, Seq::empty(), acc2, base);
    } else if t[i].kind == TokenKindV::Eof {
        let acc2 = acc.push(cur);
        assert forall|m: int, k: int| 0 <= m < acc2.len() && 0 <= k < acc2[m].len() implies #[trigger] acc2[m][k].line
            == base + m by {
            if m < acc.len() {
                assert(acc2[m] == acc[m]);
            }
        }
    } else {
        let cur2 = cur.push(t[i]);
        assert forall|k: int| 0 <= k < cur2.len() implies #[trigger] cur2[k].line == base + acc.len() by {
            if k < cur.len() {
                assert(cur2[k] == cur[k]);
            }
        }
        lemma_split_lines_tags(t, i + 1, cur2, acc, base);
    }
}

/// A syntax error stays on its line: when lexing succeeds, parsed line `i`
/// is the parse of the tokens read on text line `i + 1` alone (an error line
/// when that parse fails), and the other lines do not enter into it.
pub proof fn law_errors_stay_on_their_line(s: Seq<char>, i: int)
    requires
        lex_document(s) is Ok,
        0 <= i < line_count(s),
    ensures
        lex_document(s) matches Ok(ts) && {
            let toks = document_lines(ts)[i];
            &&& parse_document_spec(ts)[i] == line_or_error(parse_line_spec(toks))
            &&& forall|k: int| 0 <= k < toks.len() ==> #[trigger] toks[k].line == i + 1
        },
{
    lemma_document_line_count(s);
    lemma_lex_from_lines(s, 0);
    lemma_lex_from_token_lines(s, 0);
    let ts = lex_document(s)->Ok_0;
    assert(ts.take(0) =~= Seq::<TokenV>::empty());
    assert(newline_count(Seq::<TokenV>::empty()) == 0);
    lemma_split_lines_tags(ts, 0, Seq::empty(), Seq::empty(), 1);
}

/// A line's parse, with an error turned into an error line showing its text.
pub open spec fn line_or_error(r: Result<LineV, CalcErrorV>) -> LineV {
    match r {
        Ok(l) => l,
        Err(e) => LineV::Error(e.display_text()),
    }
}

/// The parsed lines of a document's token stream.
pub open spec fn parse_document_spec(t: Seq<TokenV>) -> Seq<LineV> {
    document_lines(t).map_values(|l: Seq<TokenV>| line_or_error(parse_line_spec(l)))
}

/// No token is an end marker.
pub open spec fn no_eof(t: Seq<TokenV>) -> bool {
    forall|i: int| 0 <= i < t.len() ==> !(#[trigger] t[i].kind is Eof)
}

/// Every column leaves room for the end marker after it.
pub open spec fn cols_bounded(t: Seq<TokenV>) -> bool {
    forall|i: int| 0 <= i < t.len() ==> #[trigger] t[i].col < usize::MAX
}

impl LineParser {
    fn new(tokens: Vec<Token>) -> (r: LineParser)
        requires
            no_eof(tokens_view(tokens@)),
            cols_bounded(tokens_view(tokens@)),
        ensures
            r.wf(),
            r.pos == 0,
            r.tv() == line_stream(tokens_view(tokens@)),
    {
        let ghost tv0 = tokens_view(tokens@);
        let mut tokens = tokens;
        let n = tokens.len();
        let needs_eof = n == 0 || !matches!(tokens[n - 1].kind, TokenKind::Eof);
        if needs_eof {
            let (line, col) = if n == 0 {
                (1, 1)
            } else {
                assert(tv0[n - 1].col < usize::MAX);
                (tokens[n - 1].line, tokens[n - 1].col + 1)
            };
            tokens.push(Token { kind: TokenKind::Eof, line, col });
            assert(tokens_view(tokens@) =~= line_stream(tv0));
        }
        let r = LineParser { tokens, pos: 0 };
        assert forall|i: int| 0 <= i < r.tv().len() - 1 implies !(#[trigger] r.tv()[i].kind is Eof) by {
            assert(r.tv()[i] == tv0[i]);
        }
        r
    }
}

/// How a token reads inside a label.
fn token_to_str(t: &Token) -> (r: String)
    ensures
        r@ == token_text(t.kind@),
{
    match &t.kind {
        TokenKind::Ident(s) => s.clone(),
        TokenKind::Keyword(Keyword::In) => String::from_str("in"),
        TokenKind::Keyword(Keyword::To) => String::from_str("to"),
        TokenKind::Keyword(Keyword::As) => String::from_str("as"),
        TokenKind::Keyword(Keyword::Of) => String::from_str("of"),
        other => kind_debug(other),
    }
}

/// Parses the tokens of one line (which hold no end marker).
fn parse_line(tokens: Vec<Token>) -> (r: Result<Line, CalcError>)
    requires
        no_eof(tokens_view(tokens@)),
        cols_bounded(tokens_view(tokens@)),
    ensures
        match parse_line_spec(tokens_view(tokens@)) {
            Ok(l) => r matches Ok(x) && x@ == l,
            Err(e) => r matches Err(x) && x@ == e,
        },
{
    let ghost t = tokens_view(tokens@);
    let n = tokens.len();
    if n == 0 {
        return Ok(Line::Empty);
    }
    match &tokens[0].kind {
        TokenKind::Comment(s) => {
            return Ok(Line::Comment(s.clone()));
        },
        _ => {},
    }
    if n >= 2 && matches!(tokens[n - 1].kind, TokenKind::Colon) {
        let ghost words = t.drop_last().map_values(|x: TokenV| token_text(x.kind));
        let mut label = String::new();
        let mut i: usize = 0;
        while i < n - 1
            invariant
                n == tokens.len(),
                n >= 2,
                t == tokens_view(tokens@),
                words == t.drop_last().map_values(|x: TokenV| token_text(x.kind)),
                i <= n - 1,
                label@ == join_words(words.take(i as int)),
            decreases n - 1 - i,
        {
            let w = token_to_str(&tokens[i]);
            assert(words[i as int] == w@);
            let ghost before = label@;
            if i > 0 {
                push_char(&mut label, ' ');
            }
            label.append(w.as_str());
            assert(words.take(i + 1).drop_last() =~= words.take(i as int));
            if i == 0 {
                assert(label@ =~= words.take(1)[0]);
            } else {
                assert(label@ =~= before + seq![' '] + w@);
            }
            i = i + 1;
        }
        assert(words.take(n - 1) =~= words);
        return Ok(Line::Label(label));
    }
    if n == 1 && matches!(tokens[0].kind, TokenKind::Colon) {
        return Ok(Line::Label(String::new()));
    }
    let mut lp = LineParser::new(tokens);
    match lp.parse_expr() {
        Ok(e) => Ok(Line::Expr(e)),
        Err(e) => Err(e),
    }
}

/// A parser over the tokens of a whole document.
pub struct Parser {
    tokens: Vec<Token>,
}

impl Parser {
    /// The tokens still to be parsed.
    pub closed spec fn tokens(&self) -> Seq<TokenV> {
        tokens_view(self.tokens@)
    }

    /// A parser over `tokens`.
    pub fn new(tokens: Vec<Token>) -> (r: Self)
        ensures
            r.tokens() == tokens_view(tokens@),
    {
        Parser { tokens }
    }

    /// Parses the token stream as a document: one `Line` per line up to the
    /// end marker, a line that fails to parse becoming an error line. It
    /// always succeeds and consumes the tokens.
    pub fn parse_document(&mut self) -> (r: Result<Vec<Line>, CalcError>)
        requires
            columns_fit(old(self).tokens()),
        ensures
            r matches Ok(lines) && lines_view(lines@) == parse_document_spec(old(self).tokens()),
            final(self).tokens() == Seq::<TokenV>::empty(),
    {
        let mut tokens: Vec<Token> = Vec::new();
        std::mem::swap(&mut tokens, &mut self.tokens);
        let ghost t = tokens_view(tokens@);
        assert(self.tokens() =~= Seq::<TokenV>::empty());
        let mut all_lines: Vec<Vec<Token>> = Vec::new();
        let mut current: Vec<Token> = Vec::new();
        let mut i: usize = 0;
        let mut done = false;
        assert(all_lines@.map_values(|v: Vec<Token>| tokens_view(v@)) =~= Seq::<Seq<TokenV>>::empty());
        assert(tokens_view(current@) =~= Seq::<TokenV>::empty());
        while i < tokens.len() && !done
            invariant
                t == tokens_view(tokens@),
                columns_fit(t),
                i <= tokens.len(),
                done ==> document_lines(t) == all_lines@.map_values(|v: Vec<Token>| tokens_view(v@)),
                !done ==> document_lines(t) == split_lines(
                    t,
                    i as int,
                    tokens_view(current@),
                    all_lines@.map_values(|v: Vec<Token>| tokens_view(v@)),
                ),
                no_eof(tokens_view(current@)),
                cols_bounded(tokens_view(current@)),
                forall|k: int| 0 <= k < all_lines@.len() ==> no_eof(tokens_view(#[trigger] all_lines@[k]@)),
                forall|k: int| 0 <= k < all_lines@.len() ==> cols_bounded(tokens_view(#[trigger] all_lines@[k]@)),
            decreases tokens.len() - i, if done { 0int } else { 1int },
        {
            let ghost acc = all_lines@.map_values(|v: Vec<Token>| tokens_view(v@));
            let ghost cur = tokens_view(current@);
            let tok = tokens[i].duplicate();
            assert(t[i as int] == tok@);
            if matches!(tok.kind, TokenKind::Newline) {
                let mut line: Vec<Token> = Vec::new();
                std::mem::swap(&mut line, &mut current);
                all_lines.push(line);
                assert(all_lines@.map_values(|v: Vec<Token>| tokens_view(v@)) =~= acc.push(cur));
                assert(tokens_view(current@) =~= Seq::<TokenV>::empty());
                i = i + 1;
            } else if matches!(tok.kind, TokenKind::Eof) {
                let mut line: Vec<Token> = Vec::new();
                std::mem::swap(&mut line, &mut current);
                all_lines.push(line);
                assert(all_lines@.map_values(|v: Vec<Token>| tokens_view(v@)) =~= acc.push(cur));
                assert(tokens_view(current@) =~= Seq::<TokenV>::empty());
                done = true;
            } else {
                current.push(tok);
                assert(tokens_view(current@) =~= cur.push(t[i as int]));
                i = i + 1;
            }
        }
        if !done && current.len() > 0 {
            let ghost acc = all_lines@.map_values(|v: Vec<Token>| tokens_view(v@));
            let ghost cur = tokens_view(current@);
            all_lines.push(current);
            assert(all_lines@.map_values(|v: Vec<Token>| tokens_view(v@)) =~= acc.push(cur));
        }
        let ghost dl = all_lines@.map_values(|v: Vec<Token>| tokens_view(v@));
        assert(document_lines(t) == dl);
        let mut result: Vec<Line> = Vec::new();
        let mut j: usize = 0;
        let ghost spec_lines = parse_document_spec(t);
        while j < all_lines.len()
            invariant
                dl == all_lines@.map_values(|v: Vec<Token>| tokens_view(v@)),
                document_lines(t) == dl,
                spec_lines == parse_document_spec(t),
                j <= all_lines.len(),
                forall|k: int| 0 <= k < all_lines@.len() ==> no_eof(tokens_view(#[trigger] all_lines@[k]@)),
                forall|k: int| 0 <= k < all_lines@.len() ==> cols_bounded(tokens_view(#[trigger] all_lines@[k]@)),
                lines_view(result@) == spec_lines.take(j as int),
            decreases all_lines.len() - j,
        {
            let mut line_tokens: Vec<Token> = Vec::new();
            let src = &all_lines[j];
            let mut k: usize = 0;
            while k < src.len()
                invariant
                    k <= src.len(),
                    tokens_view(line_tokens@) == tokens_view(src@).take(k as int),
                decreases src.len() - k,
            {
                let ghost before = line_tokens@;
                let d = src[k].duplicate();
                line_tokens.push(d);
                assert(line_tokens@ =~= before.push(d));
                assert(tokens_view(line_tokens@) =~= tokens_view(before).push(src@[k as int]@));
                assert(tokens_view(line_tokens@) =~= tokens_view(src@).take(k + 1));
                k = k + 1;
            }
            assert(tokens_view(line_tokens@) =~= dl[j as int]);
            assert(no_eof(tokens_view(all_lines@[j as int]@)));
            assert(cols_bounded(tokens_view(all_lines@[j as int]@)));
            let ghost lv = result@;
            let line = match parse_line(line_tokens) {
                Ok(l) => l,
                Err(e) => Line::Error(e.to_display_string()),
            };
            result.push(line);
            assert(lines_view(result@) =~= spec_lines.take(j + 1)) by {
                assert(lines_view(result@) =~= lines_view(lv).push(line@));
            }
            j = j + 1;
        }
        assert(spec_lines.take(all_lines.len() as int) =~= spec_lines);
        Ok(result)
    }
}

} // verus!
