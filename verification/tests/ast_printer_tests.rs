use rlox::ast_printer::AstPrinter;
use rlox::parser::Binary;
use rlox::parser::Expr;
use rlox::parser::Grouping;
use rlox::parser::Literal;
use rlox::parser::Unary;
use rlox::token::LiteralValue;
use rlox::token::Token;
use rlox::token::TokenType;

#[test]
fn test_literal_number() {
    let printer = AstPrinter::new();
    let expr = Expr::Literal(Literal {
        value: LiteralValue::Number(123.45_f64.to_bits()),
    });

    let result = printer.print_expr(&expr);
    assert_eq!(result, "123.45");
}

#[test]
fn test_literal_string() {
    let printer = AstPrinter::new();
    let expr = Expr::Literal(Literal {
        value: LiteralValue::String("hello".to_string()),
    });

    let result = printer.print_expr(&expr);
    assert_eq!(result, "hello");
}

#[test]
fn test_literal_boolean() {
    let printer = AstPrinter::new();
    let expr = Expr::Literal(Literal {
        value: LiteralValue::Boolean(true),
    });

    let result = printer.print_expr(&expr);
    assert_eq!(result, "true");
}

#[test]
fn test_literal_nil() {
    let printer = AstPrinter::new();
    let expr = Expr::Literal(Literal {
        value: LiteralValue::Nil,
    });

    let result = printer.print_expr(&expr);
    assert_eq!(result, "nil");
}

#[test]
fn test_unary_expression() {
    let printer = AstPrinter::new();
    let expr = Expr::Unary(Unary {
        operator: Token::simple(TokenType::Minus, "-", 0),
        right: Box::new(Expr::Literal(Literal {
            value: LiteralValue::Number(123.0_f64.to_bits()),
        })),
    });

    let result = printer.print_expr(&expr);
    assert_eq!(result, "(- 123)");
}

#[test]
fn test_binary_expression() {
    let printer = AstPrinter::new();
    let expr = Expr::Binary(Binary {
        left: Box::new(Expr::Literal(Literal {
            value: LiteralValue::Number(1.0_f64.to_bits()),
        })),
        operator: Token::simple(TokenType::Plus, "+", 0),
        right: Box::new(Expr::Literal(Literal {
            value: LiteralValue::Number(2.0_f64.to_bits()),
        })),
    });

    let result = printer.print_expr(&expr);
    assert_eq!(result, "(+ 1 2)");
}

#[test]
fn test_grouping_expression() {
    let printer = AstPrinter::new();
    let expr = Expr::Grouping(Grouping {
        expr: Box::new(Expr::Literal(Literal {
            value: LiteralValue::Number(45.67_f64.to_bits()),
        })),
    });

    let result = printer.print_expr(&expr);
    assert_eq!(result, "(group 45.67)");
}

#[test]
fn test_complex_expression() {
    let printer = AstPrinter::new();
    // Represents: (- (group (+ 1 2)))
    let expr = Expr::Unary(Unary {
        operator: Token::simple(TokenType::Minus, "-", 0),
        right: Box::new(Expr::Grouping(Grouping {
            expr: Box::new(Expr::Binary(Binary {
                left: Box::new(Expr::Literal(Literal {
                    value: LiteralValue::Number(1.0_f64.to_bits()),
                })),
                operator: Token::simple(TokenType::Plus, "+", 0),
                right: Box::new(Expr::Literal(Literal {
                    value: LiteralValue::Number(2.0_f64.to_bits()),
                })),
            })),
        })),
    });

    let result = printer.print_expr(&expr);
    assert_eq!(result, "(- (group (+ 1 2)))");
}
