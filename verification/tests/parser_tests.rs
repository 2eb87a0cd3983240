use calc_core::ast::{BinOp, Expr, Line};
use calc_core::lexer::{Lexer, NumberLit};
use calc_core::parse_input;
use calc_core::parser::Parser;
use calc_core::units::Unit;

fn parse(input: &str) -> Vec<Line> {
    let mut lexer = Lexer::new(input);
    let tokens = lexer.tokenize().unwrap();
    let mut parser = Parser::new(tokens);
    parser.parse_document().unwrap()
}

#[test]
fn test_simple_expr() {
    let lines = parse("1 + 2");
    assert_eq!(lines.len(), 1);
    assert!(matches!(lines[0], Line::Expr(_)));
}

#[test]
fn test_assignment() {
    let lines = parse("x = 42");
    assert_eq!(lines.len(), 1);
    if let Line::Expr(Expr::Assign { ref name, .. }) = lines[0] {
        assert_eq!(name, "x");
    } else {
        panic!("Expected assignment, got {:?}", lines[0]);
    }
}

#[test]
fn test_comment_line() {
    let lines = parse("# this is a comment");
    assert_eq!(lines.len(), 1);
    assert!(matches!(lines[0], Line::Comment(_)));
}

#[test]
fn test_label() {
    let lines = parse("Income:");
    assert_eq!(lines.len(), 1);
    if let Line::Label(ref s) = lines[0] {
        assert_eq!(s, "Income");
    } else {
        panic!("Expected label, got {:?}", lines[0]);
    }
}

#[test]
fn test_multiline() {
    let lines = parse("1 + 1\n2 * 3\n");
    assert_eq!(lines.len(), 3);
}

#[test]
fn parser_test_percent_of() {
    let lines = parse("20% of 500");
    assert!(
        matches!(lines[0], Line::Expr(Expr::PercentOf { .. })),
        "Expected PercentOf, got {:?}",
        lines[0]
    );
}

#[test]
fn parser_test_percent_add() {
    let lines = parse("100 + 20%");
    assert!(
        matches!(lines[0], Line::Expr(Expr::PercentAdd { .. })),
        "Expected PercentAdd, got {:?}",
        lines[0]
    );
}

#[test]
fn test_unit_conversion_keyword() {
    let lines = parse("5 km in m");
    assert!(
        matches!(lines[0], Line::Expr(Expr::Convert { .. })),
        "Expected Convert, got {:?}",
        lines[0]
    );
}

#[test]
fn parser_test_unit_literal() {
    let lines = parse("5 km");
    assert!(
        matches!(lines[0], Line::Expr(Expr::Convert { .. })),
        "Expected Convert node for '5 km', got {:?}",
        lines[0]
    );
}

#[test]
fn parser_test_function_call() {
    let lines = parse("sqrt(16)");
    assert!(
        matches!(lines[0], Line::Expr(Expr::FuncCall { .. })),
        "Expected FuncCall, got {:?}",
        lines[0]
    );
}

#[test]
fn test_power_right_assoc() {
    let lines = parse("2^3^2");
    assert!(matches!(lines[0], Line::Expr(Expr::BinaryOp { op: BinOp::Pow, .. })));
    if let Line::Expr(Expr::BinaryOp { left, right, .. }) = &lines[0] {
        assert!(matches!(**left, Expr::Number(NumberLit::Decimal(ref s)) if s == "2"));
        assert!(matches!(**right, Expr::BinaryOp { op: BinOp::Pow, .. }));
    }
}

#[test]
fn test_empty_line() {
    let lines = parse("");
    assert_eq!(lines.len(), 1);
    assert!(matches!(lines[0], Line::Empty));
}

#[test]
fn one_line_per_source_line() {
    let lines = parse_input("a = 1\n\n# note\nTotal:\na * 2").unwrap();
    assert_eq!(lines.len(), 5);
    assert!(matches!(lines[1], Line::Empty));
    assert!(matches!(lines[2], Line::Comment(_)));
    assert!(matches!(lines[3], Line::Label(_)));
}

#[test]
fn syntax_error_stays_on_its_line() {
    let lines = parse_input("1 +\n2").unwrap();
    assert_eq!(lines.len(), 2);
    assert!(matches!(lines[0], Line::Error(_)));
    assert!(matches!(lines[1], Line::Expr(_)));
}

#[test]
fn conversion_target_unit() {
    let lines = parse("5 km in m");
    if let Line::Expr(Expr::Convert { target_unit, .. }) = &lines[0] {
        assert!(matches!(target_unit, Unit::Meter));
    } else {
        panic!("expected a conversion");
    }
}

#[test]
fn precedence_of_multiplication() {
    let lines = parse("1 + 2 * 3");
    if let Line::Expr(Expr::BinaryOp { op, right, .. }) = &lines[0] {
        assert_eq!(*op, BinOp::Add);
        assert!(matches!(**right, Expr::BinaryOp { op: BinOp::Mul, .. }));
    } else {
        panic!("expected a binary operation");
    }
}

#[test]
fn one_parsed_line_per_text_line() {
    assert_eq!(parse_input("a = 1\n\n# note\nb = a").unwrap().len(), 4);
    assert_eq!(parse_input("x\n").unwrap().len(), 2);
    assert_eq!(parse_input("").unwrap().len(), 1);
    assert!(matches!(parse_input("1 + ").unwrap()[0], Line::Error(_)));
    assert!(parse_input("a\n$").is_err());
}

#[test]
fn tuple_value_error_names_the_token() {
    let lines = parse_input("(a, b) = (1 zz, 2)").unwrap();
    match &lines[0] {
        Line::Error(m) => assert_eq!(m, "[1:13] Expected ',' or ')' in tuple values, got Ident(\"zz\")"),
        _ => panic!("expected an error line"),
    }
}

#[test]
fn a_line_parses_the_same_whatever_its_neighbours_hold() {
    let a = parse_input("1 +\n2 * 3 km\n").unwrap();
    let b = parse_input("(((\n2 * 3 km\nx = 4").unwrap();
    let c = parse_input("total = 5\n2 * 3 km").unwrap();
    assert!(matches!(a[0], Line::Error(_)));
    assert!(matches!(b[0], Line::Error(_)));
    assert_eq!(format!("{:?}", a[1]), format!("{:?}", b[1]));
    assert_eq!(format!("{:?}", a[1]), format!("{:?}", c[1]));
}

#[test]
fn percent_between_operands_is_modulo() {
    let lines = parse("17 % 5");
    match &lines[0] {
        Line::Expr(Expr::BinaryOp { op, .. }) => assert_eq!(*op, BinOp::Mod),
        other => panic!("expected a modulo, got {:?}", other),
    }
    assert!(matches!(parse("20%")[0], Line::Expr(Expr::Percentage(_))));
    assert!(matches!(parse("20% of 150")[0], Line::Expr(Expr::PercentOf { .. })));
    assert!(matches!(parse("100 - 20%")[0], Line::Expr(Expr::PercentSub { .. })));
    match &parse("x % (3)")[0] {
        Line::Expr(Expr::BinaryOp { op, .. }) => assert_eq!(*op, BinOp::Mod),
        other => panic!("expected a modulo, got {:?}", other),
    }
}
