use rlox::interpreter::Interpreter;
use rlox::parser::Expr;
use rlox::parser::Literal;
use rlox::parser::Parser;
use rlox::parser::Stmt;
use rlox::scanner::Scanner;
use rlox::token::LiteralValue;
use rlox::token::Token;
use rlox::token::TokenType;

/// Scan, parse and interpret `source`, returning the printed values.
fn run(source: &str) -> Vec<LiteralValue> {
    let mut scanner = Scanner::new(source.to_string());
    let tokens = scanner.scan_tokens();
    assert!(!scanner.has_error(), "lexical error in '{}'", source);
    let mut parser = Parser::new(tokens);
    let stmts = parser.parse().expect("parse error");
    let mut interp = Interpreter::new();
    interp.interpret(&stmts).expect("runtime error");
    interp.take_output()
}

/// Scan, parse and interpret `source`, expecting a runtime error.
fn run_err(source: &str) -> rlox::interpreter::RuntimeError {
    let mut scanner = Scanner::new(source.to_string());
    let tokens = scanner.scan_tokens();
    assert!(!scanner.has_error());
    let mut parser = Parser::new(tokens);
    let stmts = parser.parse().expect("parse error");
    let mut interp = Interpreter::new();
    interp.interpret(&stmts).unwrap_err()
}

fn num(x: f64) -> LiteralValue {
    LiteralValue::Number(x.to_bits())
}

#[test]
fn multiplication_binds_tighter_than_addition() {
    // `1 + 2 * 3` must evaluate to 7, not 9.
    assert_eq!(run("print 1 + 2 * 3;"), vec![num(7.0)]);
}

#[test]
fn subtraction_is_left_associative() {
    // `1 - 2 - 3` must evaluate to -4, not 2.
    assert_eq!(run("print 1 - 2 - 3;"), vec![num(-4.0)]);
}

#[test]
fn equality_is_type_strict() {
    // `1 == "1"` is a runtime error, not `false`.
    let err = run_err("print 1 == \"1\";");
    assert_eq!(
        err.message,
        "Invalid operands: 1 and \"1\". Expected comparable types"
    );
    assert_eq!(err.line, 1);
}

#[test]
fn truthiness_of_nil_and_zero() {
    // `!nil` is true; `!0` is false (0 is truthy).
    assert_eq!(
        run("print !nil; print !0;"),
        vec![LiteralValue::Boolean(true), LiteralValue::Boolean(false)]
    );
}

#[test]
fn undefined_variable_is_a_runtime_error() {
    let err = run_err("print x;");
    assert_eq!(err.message, "Undefined variable: x");
    assert_eq!(err.line, 1);
}

#[test]
fn declarations_bind_and_add() {
    // The whole pipeline: 16 tokens (end-of-input included), 3 statements,
    // and the sum printed.
    let source = "var a = 1; var b = 2; print a + b;";
    let mut scanner = Scanner::new(source.to_string());
    let tokens = scanner.scan_tokens();
    assert!(!scanner.has_error());
    assert_eq!(tokens.len(), 16);
    let mut parser = Parser::new(tokens);
    let stmts = parser.parse().expect("parse error");
    assert_eq!(stmts.len(), 3);
    let mut interp = Interpreter::new();
    interp.interpret(&stmts).expect("runtime error");
    assert_eq!(interp.take_output(), vec![num(3.0)]);
}

#[test]
fn declaration_without_initializer_binds_nil() {
    assert_eq!(run("var a; print a;"), vec![LiteralValue::Nil]);
}

#[test]
fn redeclaration_overwrites() {
    assert_eq!(run("var a = 1; var a = 2; print a;"), vec![num(2.0)]);
}

#[test]
fn string_concatenation() {
    assert_eq!(
        run("print \"foo\" + \"bar\";"),
        vec![LiteralValue::String("foobar".to_string())]
    );
}

#[test]
fn division_follows_native_float_semantics() {
    // Division by zero yields infinity rather than an error.
    assert_eq!(run("print 6 / 2; print 1 / 0;"), vec![num(3.0), num(f64::INFINITY)]);
}

#[test]
fn unary_minus_negates_numbers() {
    assert_eq!(run("print -5; print -(1 + 2);"), vec![num(-5.0), num(-3.0)]);
}

#[test]
fn comparisons_on_numbers() {
    assert_eq!(
        run("print 1 < 2; print 2 <= 2; print 1 > 2; print 2 >= 3; print 1 != 2;"),
        vec![
            LiteralValue::Boolean(true),
            LiteralValue::Boolean(true),
            LiteralValue::Boolean(false),
            LiteralValue::Boolean(false),
            LiteralValue::Boolean(true),
        ]
    );
}

#[test]
fn plus_operand_errors_name_the_expected_side() {
    assert_eq!(
        run_err("print 1 + \"x\";").message,
        "Invalid operands: 1 and \"x\". Expected a number"
    );
    assert_eq!(
        run_err("print \"x\" + 1;").message,
        "Invalid operands: \"x\" and 1. Expected a string"
    );
    assert_eq!(
        run_err("print nil + 1;").message,
        "Invalid operands: nil and 1. Expected a number or string"
    );
    assert_eq!(
        run_err("print true - 1;").message,
        "Invalid operands: true and 1. Expected numbers"
    );
}

#[test]
fn unary_minus_on_non_number_errors() {
    assert_eq!(run_err("print -nil;").message, "Invalid operator: Minus");
}

#[test]
fn runtime_error_carries_the_operator_line() {
    let err = run_err("var a = 1;\nprint a + nil;");
    assert_eq!(err.line, 2);
}

#[test]
fn assignment_rebinds_and_yields_the_value() {
    // The evaluator treats assignment as an expression: it rebinds the name
    // and yields the assigned value.
    let name = Token::simple(TokenType::Identifier, "a", 1);
    let stmts = vec![
        Stmt::Print(Expr::Assign(
            name.clone(),
            Box::new(Expr::Literal(Literal { value: num(5.0) })),
        )),
        Stmt::Print(Expr::Variable(name)),
    ];
    let mut interp = Interpreter::new();
    interp.interpret(&stmts).expect("runtime error");
    assert_eq!(interp.take_output(), vec![num(5.0), num(5.0)]);
}

#[test]
fn define_and_get_directly() {
    let mut interp = Interpreter::new();
    interp.define(&"a".to_string(), num(1.5));
    let got = interp.get(7, &"a".to_string()).expect("lookup failed");
    assert_eq!(got, num(1.5));
    let err = interp.get(7, &"missing".to_string()).unwrap_err();
    assert_eq!(err.message, "Undefined variable: missing");
    assert_eq!(err.line, 7);
}

#[test]
fn is_truthy_rules() {
    assert!(num(0.0).is_truthy());
    assert!(LiteralValue::String(String::new()).is_truthy());
    assert!(!LiteralValue::Nil.is_truthy());
    assert!(!LiteralValue::Boolean(false).is_truthy());
    assert!(LiteralValue::Boolean(true).is_truthy());
}

#[test]
fn execution_stops_at_the_first_runtime_error() {
    let mut scanner = Scanner::new("print 1; print x; print 2;".to_string());
    let tokens = scanner.scan_tokens();
    let mut parser = Parser::new(tokens);
    let stmts = parser.parse().expect("parse error");
    let mut interp = Interpreter::new();
    assert!(interp.interpret(&stmts).is_err());
    // The first print ran; the third never did.
    assert_eq!(interp.take_output(), vec![num(1.0)]);
}

#[test]
fn empty_environment_has_no_bindings() {
    let env = rlox::interpreter::Environment::new();
    assert!(env.get(&"a".to_string()).is_none());
}
