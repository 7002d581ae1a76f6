use arbores::lexer::types::{Span, Token, TokenType};
use arbores::parser::source::SourceBuilder;
use arbores::parser::types::{DottedListError, Number, SExpr, SExprContent, Value};
use arbores::parser::utils::{
    build_dotted_list, build_list, is_atom_token, token_to_value, validate_dotted_list_structure,
};

#[test]
fn test_source_builder_basic() {
    let mut builder = SourceBuilder::new();

    let token1 = Token::new(TokenType::LeftParen, Span::new(0, 1), "(".to_string());
    let token2 = Token::new(TokenType::Symbol("define".to_string()), Span::new(1, 7), "define".to_string());
    let token3 = Token::new(TokenType::Symbol("x".to_string()), Span::new(8, 9), "x".to_string());
    let token4 = Token::new(TokenType::Integer(42), Span::new(10, 12), "42".to_string());
    let token5 = Token::new(TokenType::RightParen, Span::new(12, 13), ")".to_string());

    builder.add_token(&token1);
    builder.add_token(&token2);
    builder.add_token(&token3);
    builder.add_token(&token4);
    builder.add_token(&token5);

    let result = builder.build();
    assert_eq!(result, "(define x 42)");
}

#[test]
fn test_source_builder_preserves_original_text() {
    let mut builder = SourceBuilder::new();

    let token_plus_one = Token::new(TokenType::Integer(1), Span::new(0, 2), "+1".to_string());
    let token_true_short = Token::new(TokenType::Boolean(true), Span::new(3, 5), "#t".to_string());
    let token_float = Token::new(TokenType::Float("1.00".to_string()), Span::new(6, 10), "1.00".to_string());

    builder.add_token(&token_plus_one);
    builder.add_token(&token_true_short);
    builder.add_token(&token_float);

    let result = builder.build();
    assert_eq!(result, "+1 #t 1.00");
}

#[test]
fn test_source_builder_with_trivia_tokens() {
    let mut builder = SourceBuilder::new();

    let token1 = Token::new(TokenType::LeftParen, Span::new(0, 1), "(".to_string());
    let whitespace = Token::new(TokenType::Whitespace("  ".to_string()), Span::new(1, 3), "  ".to_string());
    let token2 = Token::new(TokenType::Symbol("x".to_string()), Span::new(3, 4), "x".to_string());
    let comment = Token::new(TokenType::Comment(" this is x".to_string()), Span::new(4, 16), "; this is x".to_string());
    let newline = Token::new(TokenType::Newline, Span::new(16, 17), "\n".to_string());
    let token3 = Token::new(TokenType::RightParen, Span::new(17, 18), ")".to_string());

    builder.add_token(&token1);
    builder.add_token(&whitespace);
    builder.add_token(&token2);
    builder.add_token(&comment);
    builder.add_token(&newline);
    builder.add_token(&token3);

    let result = builder.build();
    assert_eq!(result, "(  x; this is x\n)");
}

#[test]
fn test_token_to_value() {
    assert_eq!(token_to_value(TokenType::Integer(42)), Some(Value::Number(Number::Integer(42))));
    match token_to_value(TokenType::Float("3.14".to_string())) {
        Some(Value::Number(Number::Float(text))) => assert_eq!(text.parse::<f64>().unwrap(), 3.14),
        other => panic!("Expected a number, got {:?}", other),
    }
    assert_eq!(
        token_to_value(TokenType::String("hello".to_string())),
        Some(Value::String("hello".to_string()))
    );
    assert_eq!(token_to_value(TokenType::Boolean(true)), Some(Value::Boolean(true)));
    assert_eq!(token_to_value(TokenType::LeftParen), None);
}

#[test]
fn test_is_atom_token() {
    assert!(is_atom_token(&TokenType::Integer(42)));
    assert!(is_atom_token(&TokenType::Float("3.14".to_string())));
    assert!(is_atom_token(&TokenType::String("hello".to_string())));
    assert!(is_atom_token(&TokenType::Symbol("x".to_string())));
    assert!(!is_atom_token(&TokenType::LeftParen));
    assert!(!is_atom_token(&TokenType::Quote));
}

#[test]
fn source_builder_length_and_emptiness() {
    let mut builder = SourceBuilder::default();
    assert!(builder.is_empty());
    assert_eq!(builder.len(), 0);
    builder.add_token(&Token::new(TokenType::Symbol("λ".to_string()), Span::new(0, 1), "λ".to_string()));
    assert!(!builder.is_empty());
    assert_eq!(builder.len(), 2);
    builder.add_token(&Token::new(TokenType::Dot, Span::new(1, 2), ".".to_string()));
    assert_eq!(builder.clone().build(), "λ.");
    builder.add_token(&Token::new(TokenType::Quote, Span::new(2, 3), "'".to_string()));
    builder.add_token(&Token::new(TokenType::Symbol("a".to_string()), Span::new(3, 4), "a".to_string()));
    assert_eq!(builder.build(), "λ. 'a");
}

#[test]
fn lists_are_chains_of_pairs() {
    let a = SExpr::with_span(SExprContent::Atom(Value::Symbol("a".to_string())), Span::new(1, 2));
    let b = SExpr::with_span(SExprContent::Atom(Value::Symbol("b".to_string())), Span::new(3, 4));
    match build_list(vec![a, b]) {
        SExprContent::Cons { car, cdr } => {
            assert_eq!(car.content, SExprContent::Atom(Value::Symbol("a".to_string())));
            assert_eq!(*cdr.span, Span::new(0, 0));
            match &cdr.content {
                SExprContent::Cons { car, cdr } => {
                    assert_eq!(car.content, SExprContent::Atom(Value::Symbol("b".to_string())));
                    assert_eq!(cdr.content, SExprContent::Nil);
                },
                _ => panic!("Expected a pair"),
            }
        },
        _ => panic!("Expected a pair"),
    }
    assert_eq!(build_list(vec![]), SExprContent::Nil);
    let a = SExpr::with_span(SExprContent::Atom(Value::Symbol("a".to_string())), Span::new(1, 2));
    let t = SExpr::with_span(SExprContent::Atom(Value::Boolean(true)), Span::new(5, 7));
    match build_dotted_list(vec![a], t) {
        SExprContent::Cons { car, cdr } => {
            assert_eq!(car.content, SExprContent::Atom(Value::Symbol("a".to_string())));
            assert_eq!(cdr.content, SExprContent::Atom(Value::Boolean(true)));
        },
        _ => panic!("Expected a pair"),
    }
}

#[test]
fn dotted_list_structure_checks() {
    let a = SExpr::without_span(SExprContent::Nil);
    assert_eq!(validate_dotted_list_structure(&[], 0), Err(DottedListError::InvalidDotPosition));
    assert_eq!(validate_dotted_list_structure(&[], 1), Err(DottedListError::InsufficientElements));
    let elements = vec![a];
    assert_eq!(validate_dotted_list_structure(&elements, 2), Err(DottedListError::InvalidDotPosition));
    assert_eq!(validate_dotted_list_structure(&elements, 1), Ok(()));
}

#[test]
fn test_span_consistency() {
    let mut builder = SourceBuilder::new();

    let token = Token::new(TokenType::Integer(1), Span::new(0, 2), "+1".to_string());

    builder.add_token(&token);
    let result = builder.build();

    assert_eq!(result.chars().count(), token.span.len());
    assert_eq!(result, "+1");
}
