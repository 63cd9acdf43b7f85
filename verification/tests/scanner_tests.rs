use rlox::scanner::Scanner;
use rlox::token::LiteralValue;
use rlox::token::TokenType;

#[test]
fn punctuation_scans_one_token_per_character() {
    // One token per character, plus the end-of-input token.
    let source = "(){},.-+;*";
    let mut scanner = Scanner::new(source.to_string());
    let tokens = scanner.scan_tokens();
    assert!(!scanner.has_error());
    assert_eq!(tokens.len(), source.len() + 1);
    assert_eq!(tokens[0].typ, TokenType::LeftParen);
    assert_eq!(tokens[9].typ, TokenType::Star);
    assert_eq!(tokens[10].typ, TokenType::Eof);
}

#[test]
fn slash_alone_is_division_but_two_begin_a_comment() {
    let mut scanner = Scanner::new("/ // all of this disappears".to_string());
    let tokens = scanner.scan_tokens();
    assert!(!scanner.has_error());
    assert_eq!(tokens.len(), 2);
    assert_eq!(tokens[0].typ, TokenType::Slash);
    assert_eq!(tokens[1].typ, TokenType::Eof);
}

#[test]
fn two_character_operators_merge() {
    let mut scanner = Scanner::new("! != = == < <= > >=".to_string());
    let tokens = scanner.scan_tokens();
    assert!(!scanner.has_error());
    let types: Vec<TokenType> = tokens.iter().map(|t| t.typ).collect();
    assert_eq!(
        types,
        vec![
            TokenType::Bang,
            TokenType::BangEqual,
            TokenType::Equal,
            TokenType::EqualEqual,
            TokenType::Less,
            TokenType::LessEqual,
            TokenType::Greater,
            TokenType::GreaterEqual,
            TokenType::Eof,
        ]
    );
}

#[test]
fn number_lexeme_keeps_trailing_dot_out() {
    // `123.` must scan as the number 123 followed by a Dot token.
    let mut scanner = Scanner::new("123.".to_string());
    let tokens = scanner.scan_tokens();
    assert!(!scanner.has_error());
    assert_eq!(tokens.len(), 3);
    assert_eq!(tokens[0].typ, TokenType::Number);
    assert_eq!(tokens[0].lexeme, "123");
    assert_eq!(
        tokens[0].literal,
        Some(LiteralValue::Number(123.0_f64.to_bits()))
    );
    assert_eq!(tokens[1].typ, TokenType::Dot);
}

#[test]
fn fractional_number_parses_to_its_double() {
    let mut scanner = Scanner::new("123.45".to_string());
    let tokens = scanner.scan_tokens();
    assert_eq!(tokens[0].lexeme, "123.45");
    assert_eq!(
        tokens[0].literal,
        Some(LiteralValue::Number(123.45_f64.to_bits()))
    );
}

#[test]
fn keywords_and_identifiers() {
    let mut scanner = Scanner::new("true false nil var print foo _bar9".to_string());
    let tokens = scanner.scan_tokens();
    assert!(!scanner.has_error());
    let types: Vec<TokenType> = tokens.iter().map(|t| t.typ).collect();
    assert_eq!(
        types,
        vec![
            TokenType::True,
            TokenType::False,
            TokenType::Nil,
            TokenType::Var,
            TokenType::Print,
            TokenType::Identifier,
            TokenType::Identifier,
            TokenType::Eof,
        ]
    );
    assert_eq!(tokens[6].lexeme, "_bar9");
}

#[test]
fn string_literal_keeps_content_and_line() {
    let mut scanner = Scanner::new("\"hi\nthere\"".to_string());
    let tokens = scanner.scan_tokens();
    assert!(!scanner.has_error());
    assert_eq!(tokens.len(), 2);
    assert_eq!(tokens[0].typ, TokenType::String);
    assert_eq!(
        tokens[0].literal,
        Some(LiteralValue::String("hi\nthere".to_string()))
    );
    // The token is tagged with the line the string began on; the end-of-input
    // token with the line the scan ended on.
    assert_eq!(tokens[0].line, 1);
    assert_eq!(tokens[1].line, 2);
}

#[test]
fn unterminated_string_sets_error_and_emits_no_token() {
    let mut scanner = Scanner::new("\"abc".to_string());
    let tokens = scanner.scan_tokens();
    assert!(scanner.has_error());
    // Only the end-of-input token: no string token for the unterminated literal.
    assert_eq!(tokens.len(), 1);
    assert_eq!(tokens[0].typ, TokenType::Eof);
}

#[test]
fn unexpected_character_is_nonfatal() {
    let mut scanner = Scanner::new("1 # 2".to_string());
    let tokens = scanner.scan_tokens();
    assert!(scanner.has_error());
    // The scan continues past the bad character and still yields both numbers.
    assert_eq!(tokens.len(), 3);
    assert_eq!(tokens[0].typ, TokenType::Number);
    assert_eq!(tokens[1].typ, TokenType::Number);
}

#[test]
fn newlines_advance_the_line_counter() {
    let mut scanner = Scanner::new("1\n2\n3".to_string());
    let tokens = scanner.scan_tokens();
    assert_eq!(tokens[0].line, 1);
    assert_eq!(tokens[1].line, 2);
    assert_eq!(tokens[2].line, 3);
}

#[test]
fn diagnostics_carry_line_and_message() {
    let mut scanner = Scanner::new("#\n\"x".to_string());
    let _tokens = scanner.scan_tokens();
    let ds = scanner.diagnostics();
    assert_eq!(ds.len(), 2);
    assert_eq!(ds[0].line, 1);
    assert_eq!(ds[0].message, "Unexpected character.");
    assert_eq!(ds[1].line, 2);
    assert_eq!(ds[1].message, "Unterminated string.");
}
