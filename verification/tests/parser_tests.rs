use rlox::ast_printer::AstPrinter;
use rlox::parser::Parser;
use rlox::scanner::Scanner;

/// Helper that takes source code, scans it into tokens, parses into an AST
/// and pretty-prints it so that we can compare with a simple string.
fn parse_and_print(source: &str) -> String {
    // Scan the source into tokens.
    let mut scanner = Scanner::new(source.to_string());
    let tokens = scanner.scan_tokens();
    assert!(
        !scanner.has_error(),
        "Scanner reported an error while processing '{}'.",
        source
    );

    // Parse the tokens into an expression.
    let mut parser = Parser::new(tokens);
    let expr = parser.parse_expr().expect("Parser returned an error");

    // Print the AST back to a string.
    let printer = AstPrinter::new();
    printer.print_expr(&expr)
}

#[test]
fn parses_single_number_literal() {
    assert_eq!(parse_and_print("123"), "123");
}

#[test]
fn parses_unary_minus() {
    assert_eq!(parse_and_print("-123"), "(- 123)");
}

#[test]
fn parses_simple_binary_expression() {
    assert_eq!(parse_and_print("1 + 2"), "(+ 1 2)");
}

#[test]
fn parses_operator_precedence() {
    // '*' has higher precedence than '+', so the expression should parse as `1 + (2 * 3)`.
    assert_eq!(parse_and_print("1 + 2 * 3"), "(+ 1 (* 2 3))");
}

#[test]
fn parses_grouping_expression() {
    assert_eq!(parse_and_print("(1 + 2) * 3"), "(* (group (+ 1 2)) 3)");
}

#[test]
fn parses_comparison_expression() {
    assert_eq!(parse_and_print("1 < 2"), "(< 1 2)");
}

#[test]
fn parses_equality_expression() {
    assert_eq!(parse_and_print("1 == 1"), "(== 1 1)");
}

#[test]
fn parses_equality_expression2() {
    assert_eq!(parse_and_print("1 == 1"), "(== 1 1)");
}

#[test]
fn reports_error_on_unterminated_parentheses() {
    // A lone '(' cannot form a valid expression and should result in a ParseError.
    let mut scanner = Scanner::new("(".to_string());
    let tokens = scanner.scan_tokens();
    let mut parser = Parser::new(tokens);
    assert!(parser.parse().is_err());
}

#[test]
fn parses_left_associative_subtraction() {
    // Same-precedence operators group left to right.
    assert_eq!(parse_and_print("1 - 2 - 3"), "(- (- 1 2) 3)");
}

#[test]
fn parse_error_carries_offending_token() {
    let mut scanner = Scanner::new("1 + ;".to_string());
    let tokens = scanner.scan_tokens();
    let mut parser = Parser::new(tokens);
    let err = parser.parse().unwrap_err();
    assert_eq!(err.token.lexeme, ";");
    assert_eq!(err.message, "Expected expression, got ';'");
}

#[test]
fn parse_error_on_missing_semicolon() {
    let mut scanner = Scanner::new("print 1".to_string());
    let tokens = scanner.scan_tokens();
    let mut parser = Parser::new(tokens);
    let err = parser.parse().unwrap_err();
    assert_eq!(err.message, "Expect ';' after expression.");
}

#[test]
fn parse_error_on_missing_variable_name() {
    let mut scanner = Scanner::new("var 1;".to_string());
    let tokens = scanner.scan_tokens();
    let mut parser = Parser::new(tokens);
    let err = parser.parse().unwrap_err();
    assert_eq!(err.message, "Expect variable name.");
}

#[test]
fn parses_variable_declarations_and_statements() {
    let mut scanner = Scanner::new("var a = 1; var b; print a;".to_string());
    let tokens = scanner.scan_tokens();
    let mut parser = Parser::new(tokens);
    let stmts = parser.parse().expect("Parser returned an error");
    assert_eq!(stmts.len(), 3);
    let printer = AstPrinter::new();
    assert_eq!(printer.print_stmt(&stmts[0]), "var a = 1");
    assert_eq!(printer.print_stmt(&stmts[1]), "var b");
    assert_eq!(printer.print_stmt(&stmts[2]), "print a");
}
