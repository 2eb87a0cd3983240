//! The syntax tree of a calculator document.
use vstd::prelude::*;
use crate::lexer::{NumberLit, NumberLitV};
use crate::units::{Unit, UnitV};

verus! {

/// Binary arithmetic operators.
#[derive(Debug, Clone, Copy, PartialEq, Eq, Structural)]
pub enum BinOp {
    Add,
    Sub,
    Mul,
    Div,
    Mod,
    Pow,
}

/// An expression on one line.
#[derive(Debug)]
pub enum Expr {
    Number(NumberLit),
    Ident(String),
    BinaryOp { op: BinOp, left: Box<Expr>, right: Box<Expr> },
    UnaryNeg(Box<Expr>),
    UnaryPos(Box<Expr>),
    FuncCall { name: String, args: Vec<Expr> },
    Assign { name: String, value: Box<Expr> },
    TupleAssign { names: Vec<String>, values: Vec<Expr> },
    Convert { expr: Box<Expr>, target_unit: Unit },
    /// "N%" = N/100
    Percentage(Box<Expr>),
    /// "N% of X"
    PercentOf { percent: Box<Expr>, base: Box<Expr> },
    /// "X + N%"
    PercentAdd { base: Box<Expr>, percent: Box<Expr> },
    /// "X - N%"
    PercentSub { base: Box<Expr>, percent: Box<Expr> },
}

/// The mathematical content of an `Expr`.
pub enum ExprV {
    Number(NumberLitV),
    Ident(Seq<char>),
    BinaryOp { op: BinOp, left: Box<ExprV>, right: Box<ExprV> },
    UnaryNeg(Box<ExprV>),
    UnaryPos(Box<ExprV>),
    FuncCall { name: Seq<char>, args: Seq<ExprV> },
    Assign { name: Seq<char>, value: Box<ExprV> },
    TupleAssign { names: Seq<Seq<char>>, values: Seq<ExprV> },
    Convert { expr: Box<ExprV>, target_unit: UnitV },
    Percentage(Box<ExprV>),
    PercentOf { percent: Box<ExprV>, base: Box<ExprV> },
    PercentAdd { base: Box<ExprV>, percent: Box<ExprV> },
    PercentSub { base: Box<ExprV>, percent: Box<ExprV> },
}

/// One line of a document.
#[derive(Debug)]
pub enum Line {
    Empty,
    Comment(String),
    Label(String),
    Expr(Expr),
    Error(String),
}

/// The mathematical content of a `Line`.
pub enum LineV {
    Empty,
    Comment(Seq<char>),
    Label(Seq<char>),
    Expr(ExprV),
    Error(Seq<char>),
}

/// The views of a sequence of strings.
pub open spec fn strings_view(s: Seq<String>) -> Seq<Seq<char>> {
    s.map_values(|x: String| x@)
}

/// The view of an expression.
pub open spec fn expr_view(e: Expr) -> ExprV
    decreases e,
{
    match e {
        Expr::Number(n) => ExprV::Number(n@),
        Expr::Ident(s) => ExprV::Ident(s@),
        Expr::BinaryOp { op, left, right } => ExprV::BinaryOp {
            op,
            left: Box::new(expr_view(*left)),
            right: Box::new(expr_view(*right)),
        },
        Expr::UnaryNeg(b) => ExprV::UnaryNeg(Box::new(expr_view(*b))),
        Expr::UnaryPos(b) => ExprV::UnaryPos(Box::new(expr_view(*b))),
        Expr::FuncCall { name, args } => ExprV::FuncCall { name: name@, args: exprs_view(args@) },
        Expr::Assign { name, value } => ExprV::Assign { name: name@, value: Box::new(expr_view(*value)) },
        Expr::TupleAssign { names, values } => ExprV::TupleAssign {
            names: strings_view(names@),
            values: exprs_view(values@),
        },
        Expr::Convert { expr, target_unit } => ExprV::Convert {
            expr: Box::new(expr_view(*expr)),
            target_unit: target_unit@,
        },
        Expr::Percentage(b) => ExprV::Percentage(Box::new(expr_view(*b))),
        Expr::PercentOf { percent, base } => ExprV::PercentOf {
            percent: Box::new(expr_view(*percent)),
            base: Box::new(expr_view(*base)),
        },
        Expr::PercentAdd { base, percent } => ExprV::PercentAdd {
            base: Box::new(expr_view(*base)),
            percent: Box::new(expr_view(*percent)),
        },
        Expr::PercentSub { base, percent } => ExprV::PercentSub {
            base: Box::new(expr_view(*base)),
            percent: Box::new(expr_view(*percent)),
        },
    }
}

/// The views of a sequence of expressions.
pub open spec fn exprs_view(s: Seq<Expr>) -> Seq<ExprV>
    decreases s,
{
    if s.len() == 0 {
        Seq::empty()
    } else {
        exprs_view(s.drop_last()).push(expr_view(s.last()))
    }
}

impl View for Expr {
    type V = ExprV;

    open spec fn view(&self) -> ExprV {
        expr_view(*self)
    }
}

impl View for Line {
    type V = LineV;

    open spec fn view(&self) -> LineV {
        match self {
            Line::Empty => LineV::Empty,
            Line::Comment(s) => LineV::Comment(s@),
            Line::Label(s) => LineV::Label(s@),
            Line::Expr(e) => LineV::Expr(e@),
            Line::Error(s) => LineV::Error(s@),
        }
    }
}

/// The views of a sequence of lines.
pub open spec fn lines_view(s: Seq<Line>) -> Seq<LineV> {
    s.map_values(|l: Line| l@)
}


/// Viewing a sequence of expressions keeps its length.
pub proof fn lemma_exprs_view_len(s: Seq<Expr>)
    ensures
        exprs_view(s).len() == s.len(),
    decreases s.len(),
{
    if s.len() > 0 {
        lemma_exprs_view_len(s.drop_last());
    }
}
} // verus!
