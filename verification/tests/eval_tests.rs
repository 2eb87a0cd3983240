//! End-to-end checks of documents through `parse_input`: each line's tree is
//! evaluated here with plain `f64` arithmetic (the numeric evaluation itself
//! lives with the application), so these check that the library builds the
//! right tree for the input.
use calc_core::ast::{BinOp, Expr, Line};
use calc_core::lexer::NumberLit;
use calc_core::parse_input;

fn number(n: &NumberLit) -> f64 {
    match n {
        NumberLit::Decimal(s) => s.parse().unwrap(),
        NumberLit::Integer(v) => *v as f64,
    }
}

fn value(e: &Expr) -> f64 {
    value_in(e, &std::collections::HashMap::new()).unwrap()
}

fn value_in(e: &Expr, env: &std::collections::HashMap<String, f64>) -> Option<f64> {
    Some(match e {
        Expr::Number(n) => number(n),
        Expr::Ident(name) => match name.as_str() {
            "pi" => std::f64::consts::PI,
            "e" => std::f64::consts::E,
            other => *env.get(other)?,
        },
        Expr::Assign { value, .. } => value_in(value, env)?,
        Expr::UnaryNeg(x) => -value_in(x, env)?,
        Expr::UnaryPos(x) => value_in(x, env)?,
        Expr::BinaryOp { op, left, right } => {
            let (a, b) = (value_in(left, env)?, value_in(right, env)?);
            match op {
                BinOp::Add => a + b,
                BinOp::Sub => a - b,
                BinOp::Mul => a * b,
                BinOp::Div => a / b,
                BinOp::Mod => a % b,
                BinOp::Pow => a.powf(b),
            }
        }
        Expr::FuncCall { name, args } => {
            let x = value_in(&args[0], env)?;
            match name.as_str() {
                "sqrt" => x.sqrt(),
                "abs" => x.abs(),
                other => panic!("unknown function {}", other),
            }
        }
        Expr::Percentage(x) => value_in(x, env)? / 100.0,
        Expr::PercentOf { percent, base } => value_in(percent, env)? / 100.0 * value_in(base, env)?,
        Expr::PercentAdd { base, percent } => {
            let b = value_in(base, env)?;
            b + b * value_in(percent, env)? / 100.0
        }
        Expr::PercentSub { base, percent } => {
            let b = value_in(base, env)?;
            b - b * value_in(percent, env)? / 100.0
        }
        other => panic!("unexpected expression {:?}", other),
    })
}

fn result_num(input: &str) -> f64 {
    let lines = parse_input(input).unwrap();
    match &lines[0] {
        Line::Expr(e) => value(e),
        other => panic!("Error evaluating '{}': {:?}", input, other),
    }
}

#[test]
fn test_basic_arithmetic() {
    assert!((result_num("1 + 2") - 3.0).abs() < 1e-10);
    assert!((result_num("10 - 3") - 7.0).abs() < 1e-10);
    assert!((result_num("4 * 5") - 20.0).abs() < 1e-10);
    assert!((result_num("15 / 3") - 5.0).abs() < 1e-10);
}

#[test]
fn test_power() {
    assert!((result_num("2 ^ 10") - 1024.0).abs() < 1e-10);
    assert!((result_num("2 ^ 3 ^ 2") - 512.0).abs() < 1e-10);
}

#[test]
fn test_constants() {
    let pi = result_num("pi");
    assert!((pi - std::f64::consts::PI).abs() < 1e-10);
}

#[test]
fn eval_test_percent_of() {
    assert!((result_num("20% of 500") - 100.0).abs() < 1e-10);
}

#[test]
fn eval_test_percent_add() {
    assert!((result_num("100 + 20%") - 120.0).abs() < 1e-10);
}

#[test]
fn test_percent_sub() {
    assert!((result_num("100 - 20%") - 80.0).abs() < 1e-10);
}

#[test]
fn eval_test_function_call() {
    assert!((result_num("sqrt(16)") - 4.0).abs() < 1e-10);
    assert!((result_num("abs(-5)") - 5.0).abs() < 1e-10);
}

/// Each line's value (`None` for lines without one, or that fail), with
/// assignments and `ans` carried from line to line.
fn document(input: &str) -> Vec<Option<f64>> {
    let mut env = std::collections::HashMap::new();
    let mut out = Vec::new();
    for line in parse_input(input).unwrap() {
        let v = match &line {
            Line::Expr(e) => value_in(e, &env),
            _ => None,
        };
        if let (Line::Expr(Expr::Assign { name, .. }), Some(x)) = (&line, v) {
            env.insert(name.clone(), x);
        }
        if let Some(x) = v {
            env.insert("ans".to_string(), x);
        }
        out.push(v);
    }
    out
}

fn close(v: Option<f64>, x: f64) -> bool {
    matches!(v, Some(y) if (y - x).abs() < 1e-9)
}

#[test]
fn document_of_assignments() {
    let r = document("salary = 5000\nrent = 1500\ngroceries = 400\ntotal_expenses = rent + groceries\nsavings = salary - total_expenses");
    assert_eq!(r.len(), 5);
    assert!(close(r[4], 3100.0));
    let r = document("a = 10\nb = 20\na + b");
    assert!(close(r[2], 30.0));
    let r = document("100\nans * 2");
    assert!(close(r[1], 200.0));
}

#[test]
fn document_literals_and_precedence() {
    assert!(close(document("1e3 + 1e3")[0], 2000.0));
    assert!(close(document("0xFF")[0], 255.0));
    assert!(close(document("0b1111")[0], 15.0));
    assert!(close(document("2^3^2")[0], 512.0));
    assert!(close(document("200 + 15%")[0], 230.0));
    assert!(close(document("200 - 10%")[0], 180.0));
}

#[test]
fn document_comments_labels_and_failures() {
    let r = document("# this is a comment\n42");
    assert_eq!(r[0], None);
    assert!(close(r[1], 42.0));
    let r = document("Budget:\n100 + 50");
    assert_eq!(r[0], None);
    assert!(close(r[1], 150.0));
    let r = document("1 + 1\nundefined_var\n3 + 3");
    assert!(close(r[0], 2.0));
    assert_eq!(r[1], None);
    assert!(close(r[2], 6.0));
}

#[test]
fn modulo_of_the_language_reference() {
    assert!(close(document("17 % 5")[0], 2.0));
    assert!(close(document("20% of 150")[0], 30.0));
}
