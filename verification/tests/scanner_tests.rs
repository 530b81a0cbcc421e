use rlox::error::ErrorKind;
use rlox::scanner::{get_keyword, Scanner};
use rlox::token::{Literal, TokenType};

#[test]
fn operators_scanned_properly() {
    let scanner = Scanner::new("!==<=>=".to_string());
    let (tokens, errors) = scanner.scan_tokens();
    assert_eq!(errors.len(), 0);

    assert!(matches!(tokens[0].token_type, TokenType::BangEqual));
    assert_eq!(tokens[0].lexeme, "!=");

    assert!(matches!(tokens[1].token_type, TokenType::Equal));
    assert_eq!(tokens[1].lexeme, "=");

    assert!(matches!(tokens[2].token_type, TokenType::LessEqual));
    assert_eq!(tokens[2].lexeme, "<=");

    assert!(matches!(tokens[3].token_type, TokenType::GreaterEqual));
    assert_eq!(tokens[3].lexeme, ">=");

    assert!(matches!(tokens[4].token_type, TokenType::Eof));
}

#[test]
fn literals_scanned_properly() {
    let scanner = Scanner::new("\"hello\"123.45".to_string());
    let (tokens, errors) = scanner.scan_tokens();
    assert_eq!(errors.len(), 0);

    assert!(matches!(tokens[0].token_type, TokenType::StrLit));
    assert!(matches!(tokens[0].literal, Some(Literal::Text(_))));
    assert_eq!(tokens[0].lexeme, "\"hello\"");

    assert!(matches!(tokens[1].token_type, TokenType::NumLit));
    assert!(matches!(tokens[1].literal, Some(Literal::Number(_))));
    assert_eq!(tokens[1].lexeme, "123.45");

    assert!(matches!(tokens[2].token_type, TokenType::Eof));
}

#[test]
fn identifiers_scanned_properly() {
    let scanner = Scanner::new("myVar".to_string());
    let (tokens, errors) = scanner.scan_tokens();
    assert_eq!(errors.len(), 0);

    assert!(matches!(tokens[0].token_type, TokenType::Identifier));
    assert_eq!(tokens[0].lexeme, "myVar");
    assert!(tokens[0].literal.is_none());

    assert!(matches!(tokens[1].token_type, TokenType::Eof));
}

#[test]
fn unexpected_operator_character_is_reported() {
    let scanner = Scanner::new("@".to_string());
    let (_tokens, errors) = scanner.scan_tokens();
    assert_eq!(errors.len(), 1);
}

#[test]
fn unterminated_string_is_reported() {
    let scanner = Scanner::new("\"".to_string());
    let (tokens, errors) = scanner.scan_tokens();
    assert_eq!(errors.len(), 1);
    // No token comes out of the failed literal: only the end-of-input
    // token remains.
    assert_eq!(tokens.len(), 1);
    assert!(matches!(tokens[0].token_type, TokenType::Eof));
}

#[test]
fn number_literal_payload_is_decoded() {
    let scanner = Scanner::new("123.45".to_string());
    let (tokens, errors) = scanner.scan_tokens();
    assert_eq!(errors.len(), 0);
    match tokens[0].literal {
        Some(Literal::Number(bits)) => assert_eq!(bits, (123.45f64).to_bits()),
        _ => panic!("number token without its payload"),
    }
}

#[test]
fn keywords_scan_to_keyword_tokens() {
    assert!(matches!(get_keyword("and"), Some(TokenType::And)));
    assert!(matches!(get_keyword("while"), Some(TokenType::While)));
    assert!(matches!(get_keyword("nil"), Some(TokenType::Nil)));
    assert!(matches!(get_keyword("myVar"), None));

    let scanner = Scanner::new("print(true);".to_string());
    let (tokens, errors) = scanner.scan_tokens();
    assert_eq!(errors.len(), 0);
    assert!(matches!(tokens[0].token_type, TokenType::Print));
    assert!(matches!(tokens[1].token_type, TokenType::LeftParen));
    assert!(matches!(tokens[2].token_type, TokenType::True));
    assert!(matches!(tokens[3].token_type, TokenType::RightParen));
    assert!(matches!(tokens[4].token_type, TokenType::Semicolon));
    assert!(matches!(tokens[5].token_type, TokenType::Eof));
}

#[test]
fn comments_emit_no_tokens() {
    let scanner = Scanner::new("1//to the end\n+/*in the\nmiddle*/2".to_string());
    let (tokens, errors) = scanner.scan_tokens();
    assert_eq!(errors.len(), 0);
    assert!(matches!(tokens[0].token_type, TokenType::NumLit));
    assert!(matches!(tokens[1].token_type, TokenType::Plus));
    assert!(matches!(tokens[2].token_type, TokenType::NumLit));
    assert!(matches!(tokens[3].token_type, TokenType::Eof));
    assert_eq!(tokens[2].line, 3);
}

#[test]
fn unterminated_block_comment_is_reported_at_its_start_line() {
    let scanner = Scanner::new("1\n/* never\nclosed".to_string());
    let (_tokens, errors) = scanner.scan_tokens();
    assert_eq!(errors.len(), 1);
    assert_eq!(errors[0].line, 2);
    assert_eq!(errors[0].message, "unterminated bulk comment");
    assert!(matches!(errors[0].kind, ErrorKind::Static));
}

#[test]
fn lines_are_counted_from_one() {
    let scanner = Scanner::new("1\n2\n@".to_string());
    let (tokens, errors) = scanner.scan_tokens();
    assert_eq!(tokens[0].line, 1);
    assert_eq!(tokens[1].line, 2);
    assert_eq!(errors.len(), 1);
    assert_eq!(errors[0].line, 3);
    assert_eq!(errors[0].message, "unexpected token: @");
}

#[test]
fn scanning_continues_after_unterminated_string() {
    let scanner = Scanner::new("\"abc".to_string());
    let (tokens, errors) = scanner.scan_tokens();
    assert_eq!(errors.len(), 1);
    assert_eq!(errors[0].message, "unterminated string");
    // The cursor resets just past the opening quote, no token comes out,
    // and scanning resumes there.
    assert!(matches!(tokens[0].token_type, TokenType::Identifier));
    assert_eq!(tokens[0].lexeme, "abc");
    assert!(matches!(tokens[1].token_type, TokenType::Eof));
}
