use arbores::lexer::types::{LexError, LexErrorReason, Span, Token, TokenType};
use arbores::parser::engine::parse;
use arbores::parser::types::{
    DottedListError, Number, ParseError, SExprContent, UnexpectedTokenReason, Value,
};

fn create_test_token(token_type: TokenType, start: usize, text: &str) -> Result<Token, LexError> {
    let span = Span::new(start, start + text.len());
    Ok(Token::new(token_type, span, text.to_string()))
}

#[test]
fn test_parse_simple_atom() {
    let tokens = vec![create_test_token(TokenType::Integer(42), 0, "42")];

    let result = parse(tokens);

    match result.result {
        Ok(exprs) => {
            assert_eq!(exprs.len(), 1);
            match &exprs[0].content {
                SExprContent::Atom(Value::Number(Number::Integer(n))) => assert_eq!(*n, 42),
                _ => panic!("Expected number atom"),
            }
        },
        Err(e) => panic!("Parse failed: {}", e.message()),
    }
}

#[test]
fn engine_test_parse_simple_list() {
    let tokens = vec![
        create_test_token(TokenType::LeftParen, 0, "("),
        create_test_token(TokenType::Symbol("define".to_string()), 1, "define"),
        create_test_token(TokenType::Symbol("x".to_string()), 8, "x"),
        create_test_token(TokenType::Integer(42), 10, "42"),
        create_test_token(TokenType::RightParen, 12, ")"),
    ];

    let result = parse(tokens);

    match result.result {
        Ok(exprs) => {
            assert_eq!(exprs.len(), 1);
            match &exprs[0].content {
                SExprContent::Cons { car, cdr: _ } => match &car.content {
                    SExprContent::Atom(Value::Symbol(s)) => assert_eq!(s, "define"),
                    _ => panic!("Expected define symbol"),
                },
                _ => panic!("Expected list"),
            }
        },
        Err(e) => panic!("Parse failed: {}", e.message()),
    }
}

#[test]
fn test_parse_quoted_expression() {
    let tokens = vec![
        create_test_token(TokenType::Quote, 0, "'"),
        create_test_token(TokenType::Symbol("x".to_string()), 1, "x"),
    ];

    let result = parse(tokens);

    match result.result {
        Ok(exprs) => {
            assert_eq!(exprs.len(), 1);
            match &exprs[0].content {
                SExprContent::Cons { car, cdr } => {
                    match &car.content {
                        SExprContent::Atom(Value::Symbol(s)) => assert_eq!(s, "quote"),
                        _ => panic!("Expected quote symbol"),
                    }
                    match &cdr.content {
                        SExprContent::Cons { car: quoted_expr, .. } => match &quoted_expr.content {
                            SExprContent::Atom(Value::Symbol(s)) => assert_eq!(s, "x"),
                            _ => panic!("Expected quoted symbol"),
                        },
                        _ => panic!("Expected quoted expression"),
                    }
                },
                _ => panic!("Expected quoted list"),
            }
        },
        Err(e) => panic!("Parse failed: {}", e.message()),
    }
}

#[test]
fn test_parse_dotted_list() {
    let tokens = vec![
        create_test_token(TokenType::LeftParen, 0, "("),
        create_test_token(TokenType::Symbol("a".to_string()), 1, "a"),
        create_test_token(TokenType::Dot, 3, "."),
        create_test_token(TokenType::Symbol("b".to_string()), 5, "b"),
        create_test_token(TokenType::RightParen, 6, ")"),
    ];

    let result = parse(tokens);

    match result.result {
        Ok(exprs) => {
            assert_eq!(exprs.len(), 1);
            match &exprs[0].content {
                SExprContent::Cons { car, cdr } => {
                    match &car.content {
                        SExprContent::Atom(Value::Symbol(s)) => assert_eq!(s, "a"),
                        _ => panic!("Expected symbol 'a'"),
                    }
                    match &cdr.content {
                        SExprContent::Atom(Value::Symbol(s)) => assert_eq!(s, "b"),
                        _ => panic!("Expected symbol 'b' as tail"),
                    }
                },
                _ => panic!("Expected dotted pair"),
            }
        },
        Err(e) => panic!("Parse failed: {}", e.message()),
    }
}

#[test]
fn spans_of_parsed_lists_and_quotes() {
    let tokens = vec![
        create_test_token(TokenType::Quote, 2, "'"),
        create_test_token(TokenType::LeftParen, 3, "("),
        create_test_token(TokenType::Symbol("a".to_string()), 4, "a"),
        create_test_token(TokenType::RightParen, 5, ")"),
    ];
    let out = parse(tokens);
    let exprs = out.result.unwrap();
    assert_eq!(*exprs[0].span, Span::new(2, 6));
    match &exprs[0].content {
        SExprContent::Cons { car, cdr } => {
            assert_eq!(*car.span, Span::new(2, 3));
            assert_eq!(*cdr.span, Span::new(3, 6));
            match &cdr.content {
                SExprContent::Cons { car, cdr } => {
                    assert_eq!(*car.span, Span::new(3, 6));
                    assert_eq!(cdr.content, SExprContent::Nil);
                    assert_eq!(*cdr.span, Span::new(6, 6));
                },
                _ => panic!("Expected a pair"),
            }
        },
        _ => panic!("Expected a pair"),
    }
    assert_eq!(out.source_text, "'(a)");
}

#[test]
fn lexical_error_stops_the_parser() {
    let err = LexError::new(4, Some('{'), LexErrorReason::InvalidCharacter);
    let tokens = vec![
        create_test_token(TokenType::LeftParen, 0, "("),
        create_test_token(TokenType::Symbol("a".to_string()), 1, "a"),
        Err(err.clone()),
        create_test_token(TokenType::RightParen, 5, ")"),
    ];
    let out = parse(tokens);
    assert_eq!(out.result, Err(ParseError::LexError(err)));
    assert_eq!(out.source_text, "(a");
}

#[test]
fn errors_of_dotted_lists() {
    let dot = Token::new(TokenType::Dot, Span::new(1, 2), ".".to_string());
    let tokens = vec![
        create_test_token(TokenType::LeftParen, 0, "("),
        Ok(dot.clone()),
        create_test_token(TokenType::Symbol("a".to_string()), 3, "a"),
        create_test_token(TokenType::RightParen, 4, ")"),
    ];
    let out = parse(tokens);
    assert_eq!(
        out.result,
        Err(ParseError::UnexpectedToken {
            found: dot.clone(),
            reason: UnexpectedTokenReason::InvalidDottedList {
                dot_token: dot,
                context: DottedListError::InvalidDotPosition,
            },
        })
    );
    assert_eq!(out.source_text, "(.");
}

#[test]
fn empty_token_list_parses_to_nothing() {
    let out = parse(vec![]);
    assert_eq!(out.result, Ok(vec![]));
    assert_eq!(out.source_text, "");
}
