use arbores::lexer::types::{LexError, LexErrorReason, Span, Token, TokenType};

#[test]
fn test_span_creation() {
    let span = Span::new(5, 10);
    assert_eq!(span.start, 5);
    assert_eq!(span.end, 10);
    assert_eq!(span.len(), 5);
    assert!(!span.is_empty());
}

#[test]
fn test_span_single_char() {
    let span = Span::single_char(5);
    assert_eq!(span.start, 5);
    assert_eq!(span.end, 6);
    assert_eq!(span.len(), 1);
    assert!(!span.is_empty());
}

#[test]
fn test_span_empty() {
    let span = Span::empty(5);
    assert_eq!(span.start, 5);
    assert_eq!(span.end, 5);
    assert_eq!(span.len(), 0);
    assert!(span.is_empty());
}

#[test]
fn test_span_from_char_range() {
    let span = Span::from_char_range(10, 5);
    assert_eq!(span.start, 10);
    assert_eq!(span.end, 15);
    assert_eq!(span.len(), 5);
}

#[test]
fn test_token_is_trivia() {
    assert!(TokenType::Whitespace(" ".to_string()).is_trivia());
    assert!(TokenType::Newline.is_trivia());
    assert!(TokenType::Comment("comment".to_string()).is_trivia());

    assert!(!TokenType::Integer(42).is_trivia());
    assert!(!TokenType::Symbol("symbol".to_string()).is_trivia());
    assert!(!TokenType::LeftParen.is_trivia());
}

#[test]
fn test_token_creation() {
    let text = "42";
    let start = 10;
    let token = Token::from_text(TokenType::Integer(42), text, start);

    assert_eq!(token.token_type, TokenType::Integer(42));
    assert_eq!(token.span.start, start);
    assert_eq!(token.span.end, start + 2);
    assert_eq!(token.raw_text, "42");
    assert_eq!(token.len(), 2);
}

#[test]
fn test_lex_error_creation() {
    let pos = 10;
    let error = LexError::new(pos, Some('!'), LexErrorReason::InvalidCharacter);

    assert_eq!(error.position, pos);
    assert_eq!(error.found_char, Some('!'));
    assert_eq!(error.found_text(), "!");
    assert_eq!(error.position(), pos);
}

#[test]
fn lex_error_found_text_at_end_of_input() {
    let error = LexError::new(3, None, LexErrorReason::UnterminatedString);
    assert_eq!(error.found_text(), "EOF");
}

#[test]
fn token_from_text_counts_characters_not_bytes() {
    let token = Token::from_text(TokenType::Symbol("λx".to_string()), "λx", 4);
    assert_eq!(token.span, Span::new(4, 6));
    assert_eq!(token.len(), 2);
}

#[test]
fn token_clone_is_equal() {
    let token = Token::from_text(TokenType::String("a\"b".to_string()), "\"a\\\"b\"", 0);
    let copy = token.clone();
    assert_eq!(copy, token);
}

#[test]
fn lex_error_messages() {
    let e = LexError::new(7, None, LexErrorReason::InvalidNumber { partial_text: "1e".to_string() });
    assert_eq!(e.message(), "Invalid number '1e' at position 7");
    let e = LexError::new(2, None, LexErrorReason::UnterminatedString);
    assert_eq!(e.message(), "Unterminated string at position 2");
    let e = LexError::new(4, Some('x'), LexErrorReason::InvalidEscape { escape_char: 'x' });
    assert_eq!(e.message(), "Invalid escape character 'x' at position 4");
    let e = LexError::new(0, Some('!'), LexErrorReason::InvalidCharacter);
    assert_eq!(e.message(), "Invalid character '!' at position 0");
    let e = LexError::new(0, None, LexErrorReason::InvalidCharacter);
    assert_eq!(e.message(), "Invalid character 'EOF' at position 0");
    let e = LexError::new(9, None, LexErrorReason::UnexpectedEof { expected: ")".to_string() });
    assert_eq!(e.message(), "Unexpected end of file (expected ')') at position 9");
    let e = LexError::new(12, None, LexErrorReason::Other("odd".to_string()));
    assert_eq!(e.message(), "odd at position 12");
}

#[test]
fn structural_texts() {
    assert_eq!(TokenType::Integer(-5).describe(), "Integer(-5)");
    assert_eq!(TokenType::Float("3.14".to_string()).describe(), "Float(3.14)");
    assert_eq!(TokenType::Symbol("a\"b".to_string()).describe(), "Symbol(\"a\\\"b\")");
    assert_eq!(TokenType::Character('\'').describe(), "Character('\\'')");
    assert_eq!(TokenType::Boolean(true).describe(), "Boolean(true)");
    assert_eq!(TokenType::RightParen.describe(), "RightParen");
    let e = LexError::new(3, Some('x'), LexErrorReason::InvalidCharacter);
    assert_eq!(e.describe(), "LexError { position: 3, found_char: Some('x'), reason: InvalidCharacter }");
    let e = LexError::new(0, None, LexErrorReason::InvalidNumber { partial_text: "1e".to_string() });
    assert_eq!(
        e.describe(),
        "LexError { position: 0, found_char: None, reason: InvalidNumber { partial_text: \"1e\" } }"
    );
    assert_eq!(format!("{:?}", TokenType::Integer(-5)), TokenType::Integer(-5).describe());
}
