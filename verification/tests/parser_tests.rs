use rlox::expression::{Expr, LiteralValue};
use rlox::parser::Parser;
use rlox::scanner::Scanner;
use rlox::token::{Token, TokenType};

fn parse_expression(source: &str) -> Result<String, String> {
    let scanner = Scanner::new(source.to_string());
    let (tokens, scan_errors) = scanner.scan_tokens();

    if let Some(error) = scan_errors.first() {
        return Err(error.display_text());
    }

    let mut parser = Parser::new(tokens);
    parser.parse_expression().map(|expr| expr.pretty_print()).map_err(|e| e.display_text())
}

#[test]
fn parses_literal_expressions() {
    assert_eq!(parse_expression("123").unwrap(), "123");
    assert_eq!(parse_expression("\"hello\"").unwrap(), "\"hello\"");
    assert_eq!(parse_expression("true").unwrap(), "true");
    assert_eq!(parse_expression("false").unwrap(), "false");
    assert_eq!(parse_expression("nil").unwrap(), "Nil");
}

#[test]
fn parses_unary_expressions() {
    assert_eq!(parse_expression("-123").unwrap(), "(- 123)");
    assert_eq!(parse_expression("!false").unwrap(), "(! false)");
}

#[test]
fn parses_binary_precedence() {
    assert_eq!(parse_expression("1+2*3").unwrap(), "(1 + (2 * 3))");
    assert_eq!(parse_expression("1<2==false").unwrap(), "((1 < 2) == false)");
}

#[test]
fn parses_grouping_and_basic_nesting() {
    assert_eq!(parse_expression("!(1+2)").unwrap(), "(! (group (1 + 2)))");
}

#[test]
fn missing_close_paren_is_a_parse_error() {
    let err = parse_expression("(1+2").unwrap_err();
    assert!(err.contains("Expected ')' after expression"), "{err}");
}

#[test]
fn statement_requires_a_semicolon() {
    let scanner = Scanner::new("1+2".to_string());
    let (tokens, _) = scanner.scan_tokens();
    let mut parser = Parser::new(tokens);
    let err = parser.parse().unwrap_err();
    assert_eq!(err.message, "Expected ';' after value");
}

#[test]
fn unexpected_token_is_a_parse_error() {
    let err = parse_expression("+").unwrap_err();
    assert!(err.contains("unexpected token in primary expression: Plus"), "{err}");
}

#[test]
fn parses_statement_sequences() {
    let scanner = Scanner::new("print(1);2+3;".to_string());
    let (tokens, _) = scanner.scan_tokens();
    let mut parser = Parser::new(tokens);
    let statements = parser.parse().unwrap();
    assert_eq!(statements.len(), 2);
}

#[test]
fn recovery_resumes_after_a_statement_boundary() {
    // The first statement is broken; synchronization consumes up to the
    // `;` just passed and the second statement still parses.
    let scanner = Scanner::new("1+;2;".to_string());
    let (tokens, _) = scanner.scan_tokens();
    let mut parser = Parser::new(tokens);
    let (statements, errors) = parser.parse_with_recovery();
    assert_eq!(errors.len(), 1);
    assert_eq!(statements.len(), 1);

    // A statement keyword is a boundary as well: the keyword is kept.
    let scanner = Scanner::new("(1;print(2);".to_string());
    let (tokens, _) = scanner.scan_tokens();
    let mut parser = Parser::new(tokens);
    let (statements, errors) = parser.parse_with_recovery();
    assert_eq!(errors.len(), 1);
    assert_eq!(statements.len(), 1);
}

fn operator_token(token_type: TokenType, lexeme: &str) -> Token {
    Token::new(token_type, lexeme.to_string(), None, 1)
}

fn reprint(text: &str) -> String {
    let scanner = Scanner::new(text.to_string());
    // The rendered form separates tokens with blanks, which this grammar
    // reports as stray characters; the token stream itself is complete.
    let (tokens, _errors) = scanner.scan_tokens();
    let mut parser = Parser::new(tokens);
    parser.parse_expression().unwrap().pretty_print()
}

fn round_trips(expr: &Expr) {
    let printed = expr.pretty_print();
    assert_eq!(reprint(&printed), printed);
}

#[test]
fn atom_renderings_reparse_to_the_same_text() {
    // The grammar is idempotent on its own output for renderings without
    // parentheses; a parenthesized rendering reparses to an explicit
    // grouping node and renders differently, as the companion test shows.
    round_trips(&Expr::literal(LiteralValue::Number(1f64.to_bits())));
    round_trips(&Expr::literal(LiteralValue::Number(123.45f64.to_bits())));
    round_trips(&Expr::literal(LiteralValue::Boolean(true)));
    round_trips(&Expr::literal(LiteralValue::Boolean(false)));
    round_trips(&Expr::literal(LiteralValue::Text("hello".to_string())));
}

#[test]
fn parenthesized_renderings_gain_explicit_groupings() {
    let expr = Expr::binary(
        Expr::literal(LiteralValue::Number(1f64.to_bits())),
        operator_token(TokenType::Plus, "+"),
        Expr::binary(
            Expr::literal(LiteralValue::Number(2f64.to_bits())),
            operator_token(TokenType::Star, "*"),
            Expr::literal(LiteralValue::Number(3f64.to_bits())),
        ),
    );
    let printed = expr.pretty_print();
    assert_eq!(printed, "(1 + (2 * 3))");
    assert_eq!(reprint(&printed), "(group (1 + (group (2 * 3))))");
}

#[test]
fn pretty_print_uses_the_canonical_number_text() {
    let expr = Expr::literal(LiteralValue::Number(123.45f64.to_bits()));
    assert_eq!(expr.pretty_print(), "123.45");
    let expr = Expr::literal(LiteralValue::Number(1f64.to_bits()));
    assert_eq!(expr.pretty_print(), "1");
}
