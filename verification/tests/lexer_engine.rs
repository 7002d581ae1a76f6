use arbores::lexer::engine::{
    filter_trivia_tokens, tokenize, tokenize_and_analyze, tokenize_string, tokenize_to_vec,
};
use arbores::lexer::types::{LexError, LexErrorReason, Span, Token, TokenType};

fn collect(input: &str) -> Result<Vec<Token>, LexError> {
    tokenize_string(input).into_iter().collect()
}

fn collect_filtered(input: &str) -> Result<Vec<Token>, LexError> {
    filter_trivia_tokens(&tokenize_string(input)).into_iter().collect()
}

fn float_value(tt: &TokenType) -> f64 {
    match tt {
        TokenType::Float(text) => text.parse::<f64>().unwrap(),
        other => panic!("Expected a floating-point token, got {:?}", other),
    }
}

#[test]
fn test_tokenize_simple_expression() {
    let input = "(+ 1 2)";
    let tokens = collect(input);

    assert!(tokens.is_ok());
    let tokens = tokens.unwrap();

    assert!(tokens.len() >= 6);
    assert_eq!(tokens[0].token_type, TokenType::LeftParen);
    assert_eq!(tokens.last().unwrap().token_type, TokenType::Eof);
}

#[test]
fn test_tokenize_numbers() {
    let input = "42 3.14";
    let tokens = collect_filtered(input);

    assert!(tokens.is_ok());
    let tokens = tokens.unwrap();

    let numbers: Vec<_> = tokens
        .iter()
        .filter(|token| matches!(token.token_type, TokenType::Integer(_) | TokenType::Float(_)))
        .collect();

    assert_eq!(numbers.len(), 2);
}

#[test]
fn test_tokenize_string_literal() {
    let input = "\"hello world\"";
    let tokens = collect_filtered(input);

    assert!(tokens.is_ok());
    let tokens = tokens.unwrap();

    assert_eq!(tokens.len(), 2);

    if let TokenType::String(content) = &tokens[0].token_type {
        assert_eq!(content, "hello world");
    } else {
        panic!("Expected string token");
    }
}

#[test]
fn test_tokenize_with_comments() {
    let input = "; This is a comment\n(+ 1 2)";
    let tokens = collect(input);

    assert!(tokens.is_ok());
    let tokens = tokens.unwrap();

    let comment_tokens: Vec<_> = tokens
        .iter()
        .filter(|token| matches!(token.token_type, TokenType::Comment(_)))
        .collect();

    assert_eq!(comment_tokens.len(), 1);
}

#[test]
fn test_tokenize_symbols() {
    let input = "symbol + - * / define lambda";
    let tokens = collect_filtered(input);

    assert!(tokens.is_ok());
    let tokens = tokens.unwrap();

    let symbol_count = tokens
        .iter()
        .filter(|token| matches!(token.token_type, TokenType::Symbol(_)))
        .count();

    assert_eq!(symbol_count, 7);
}

#[test]
fn test_tokenize_booleans() {
    let input = "#t #f #true #false";
    let tokens = collect_filtered(input);

    assert!(tokens.is_ok());
    let tokens = tokens.unwrap();

    let boolean_tokens: Vec<_> = tokens
        .iter()
        .filter(|token| matches!(token.token_type, TokenType::Boolean(_)))
        .collect();

    assert_eq!(boolean_tokens.len(), 4);
}

#[test]
fn test_position_tracking() {
    let input = "hello\nworld";
    let tokens = collect(input);

    assert!(tokens.is_ok());
    let tokens = tokens.unwrap();

    let world_token = tokens
        .iter()
        .find(|token| matches!(&token.token_type, TokenType::Symbol(s) if s == "world"));

    assert!(world_token.is_some());
    let world_token = world_token.unwrap();

    assert_eq!(world_token.span.start, 11);
}

#[test]
fn test_error_handling() {
    let input = "\"unterminated string";
    let tokens = collect(input);

    assert!(tokens.is_err());
}

#[test]
fn test_empty_input() {
    let input = "";
    let tokens = collect(input);

    assert!(tokens.is_ok());
    let tokens = tokens.unwrap();

    assert_eq!(tokens.len(), 1);
    assert_eq!(tokens[0].token_type, TokenType::Eof);
}

#[test]
fn test_character_literals() {
    let input = "#\\a #\\space #\\newline #\\tab";
    let tokens = collect_filtered(input);

    assert!(tokens.is_ok());
    let tokens = tokens.unwrap();

    let characters: Vec<_> = tokens
        .iter()
        .filter(|token| matches!(token.token_type, TokenType::Character(_)))
        .collect();

    assert_eq!(characters.len(), 4);

    match &characters[0].token_type {
        TokenType::Character(c) => assert_eq!(*c, 'a'),
        _ => panic!("Expected character token"),
    }
    match &characters[1].token_type {
        TokenType::Character(c) => assert_eq!(*c, ' '),
        _ => panic!("Expected character token"),
    }
    match &characters[2].token_type {
        TokenType::Character(c) => assert_eq!(*c, '\n'),
        _ => panic!("Expected character token"),
    }
    match &characters[3].token_type {
        TokenType::Character(c) => assert_eq!(*c, '\t'),
        _ => panic!("Expected character token"),
    }
}

fn check_single(input: &str, expected: TokenType) {
    let tokens = collect_filtered(input).unwrap_or_else(|e| panic!("Failed to tokenize: {} ({:?})", input, e));
    assert_eq!(tokens.len(), 2);
    assert_eq!(tokens[0].token_type, expected, "Failed for input: {}", input);
    assert_eq!(tokens[0].raw_text, input);
}

fn check_single_float(input: &str, expected: f64) {
    let tokens = collect_filtered(input).unwrap_or_else(|e| panic!("Failed to tokenize: {} ({:?})", input, e));
    assert_eq!(tokens.len(), 2);
    assert_eq!(float_value(&tokens[0].token_type), expected, "Failed for input: {}", input);
    assert_eq!(tokens[0].raw_text, input);
}

#[test]
fn test_positive_integers() {
    check_single("0", TokenType::Integer(0));
    check_single("1", TokenType::Integer(1));
    check_single("42", TokenType::Integer(42));
    check_single("123456789", TokenType::Integer(123456789));
}

#[test]
fn test_negative_integers() {
    check_single("-0", TokenType::Integer(0));
    check_single("-1", TokenType::Integer(-1));
    check_single("-42", TokenType::Integer(-42));
    check_single("-123456789", TokenType::Integer(-123456789));
}

#[test]
fn test_positive_floats() {
    check_single_float("0.0", 0.0);
    check_single_float("1.0", 1.0);
    check_single_float("3.14", 3.14);
    check_single_float("123.456", 123.456);
    check_single_float("0.123", 0.123);
}

#[test]
fn test_negative_floats() {
    check_single_float("-0.0", -0.0);
    check_single_float("-1.0", -1.0);
    check_single_float("-3.14", -3.14);
    check_single_float("-123.456", -123.456);
    check_single_float("-0.123", -0.123);
}

#[test]
fn test_scientific_notation() {
    check_single_float("1e0", 1e0);
    check_single_float("1E0", 1E0);
    check_single_float("1e1", 1e1);
    check_single_float("1e-1", 1e-1);
    check_single_float("1e+1", 1e+1);
    check_single_float("2.5e3", 2.5e3);
    check_single_float("2.5E3", 2.5E3);
    check_single_float("1.23e4", 1.23e4);
    check_single_float("-2.5E-3", -2.5E-3);
    check_single_float("1.0e-10", 1.0e-10);
    check_single_float("6.02e23", 6.02e23);
}

#[test]
fn test_signed_numbers_in_expressions() {
    let input = "-123.45";
    let tokens = collect_filtered(input).expect("Failed to tokenize -123.45");

    assert_eq!(tokens.len(), 2);
    assert_eq!(float_value(&tokens[0].token_type), -123.45);
    assert_eq!(tokens[0].raw_text, "-123.45");
}

fn types_before_eof(input: &str) -> Vec<TokenType> {
    let tokens = collect_filtered(input).unwrap_or_else(|e| panic!("Failed to tokenize: {} ({:?})", input, e));
    tokens.iter().take(tokens.len() - 1).map(|t| t.token_type.clone()).collect()
}

#[test]
fn test_numbers_with_separators() {
    assert_eq!(types_before_eof("42 "), vec![TokenType::Integer(42)]);
    let t = types_before_eof("3.14)");
    assert_eq!(t.len(), 2);
    assert_eq!(float_value(&t[0]), 3.14);
    assert_eq!(t[1], TokenType::RightParen);
    assert_eq!(types_before_eof("(123"), vec![TokenType::LeftParen, TokenType::Integer(123)]);
    let t = types_before_eof("-456.78]");
    assert_eq!(t.len(), 2);
    assert_eq!(float_value(&t[0]), -456.78);
    assert_eq!(t[1], TokenType::RightBracket);
}

#[test]
fn test_plus_minus_as_symbols() {
    for (input, expected) in [("+", "+"), ("-", "-")] {
        let tokens = collect_filtered(input).unwrap();
        assert_eq!(tokens.len(), 2);
        assert_eq!(tokens[0].token_type, TokenType::Symbol(expected.to_string()), "Failed for input: {}", input);
    }
    assert_eq!(
        types_before_eof("+ 1"),
        vec![TokenType::Symbol("+".to_string()), TokenType::Integer(1)]
    );
    assert_eq!(
        types_before_eof("- 1"),
        vec![TokenType::Symbol("-".to_string()), TokenType::Integer(1)]
    );
}

#[test]
fn test_edge_cases() {
    let tokens = collect_filtered("0").unwrap();
    assert_eq!(tokens.len(), 2);
    assert_eq!(tokens[0].token_type, TokenType::Integer(0));
    let tokens = collect_filtered("-0").unwrap();
    assert_eq!(tokens[0].token_type, TokenType::Integer(0));
    for (input, value) in [("0.0", 0.0), ("-0.0", -0.0), ("1.0e0", 1.0), ("-1.0e0", -1.0)] {
        let tokens = collect_filtered(input).unwrap();
        assert_eq!(tokens.len(), 2);
        assert_eq!(float_value(&tokens[0].token_type), value, "Failed for input: {}", input);
    }
}

#[test]
fn test_invalid_numbers() {
    for input in ["1.2.3", "1e", "1e+", "1e-", ".123", "123."] {
        let _result = collect_filtered(input);
    }
}

#[test]
fn test_large_numbers() {
    let tokens = collect_filtered("9223372036854775807").unwrap();
    assert_eq!(tokens.len(), 2);
    assert_eq!(tokens[0].token_type, TokenType::Integer(9223372036854775807));
    let tokens = collect_filtered("-9223372036854775808").unwrap();
    assert_eq!(tokens.len(), 2);
    assert_eq!(tokens[0].token_type, TokenType::Integer(-9223372036854775808));
}

#[test]
fn test_float_precision() {
    for (input, value) in [("3.141592653589793", 3.141592653589793), ("-2.718281828459045", -2.718281828459045)] {
        let tokens = collect_filtered(input).unwrap();
        assert_eq!(tokens.len(), 2);
        assert_eq!(float_value(&tokens[0].token_type), value, "Failed for input: {}", input);
    }
}

#[test]
fn test_original_problem_solved() {
    let input = "-123.45";
    let tokens = tokenize_and_analyze(input).expect("Should tokenize successfully");

    let non_eof_tokens: Vec<_> = tokens
        .iter()
        .filter(|t| !matches!(t.token_type, TokenType::Eof))
        .collect();

    assert_eq!(non_eof_tokens.len(), 1, "Should parse as single token");

    match &non_eof_tokens[0].token_type {
        TokenType::Float(_) => {
            assert_eq!(float_value(&non_eof_tokens[0].token_type), -123.45);
            assert_eq!(non_eof_tokens[0].raw_text, "-123.45");
        },
        _ => panic!("Should parse as Float, got {:?}", non_eof_tokens[0].token_type),
    }
}

#[test]
fn iterator_and_vector_agree() {
    let input = "(define (f x) \"s\\n\") ; c\n#\\a 1.5e3";
    let mut it = tokenize(input);
    let mut from_iter = Vec::new();
    while let Some(r) = it.next_token() {
        from_iter.push(r.unwrap());
    }
    assert!(it.next_token().is_none());
    assert_eq!(tokenize_to_vec(input).unwrap(), from_iter);
}

#[test]
fn raw_texts_spell_the_input() {
    for input in ["(+ 1 2)", "  ; c\n'(a . b)", "`(x ,y ,@z)", "#(1 2) [3]", "\"a\\\"b\" #\\space", ""] {
        let tokens = tokenize_to_vec(input).unwrap();
        let text: String = tokens.iter().map(|t| t.raw_text.as_str()).collect();
        assert_eq!(text, input);
        assert_eq!(tokens.last().unwrap().token_type, TokenType::Eof);
        assert!(tokens[..tokens.len() - 1].iter().all(|t| t.token_type != TokenType::Eof));
    }
}

#[test]
fn unterminated_string_with_trailing_escape_is_an_error() {
    let e = tokenize_to_vec("(a \"b\\").unwrap_err();
    assert_eq!(e.reason, LexErrorReason::UnterminatedString);
    assert_eq!(e.position, 6);
    assert_eq!(e.found_char, None);
    let e = tokenize_to_vec("\"ab\\").unwrap_err();
    assert_eq!(e.reason, LexErrorReason::UnterminatedString);
    assert_eq!(e.position, 4);
    let e = tokenize_to_vec("\"unterminated string").unwrap_err();
    assert_eq!(e.reason, LexErrorReason::UnterminatedString);
    assert_eq!(e.position, 20);
}

#[test]
fn raw_texts_spell_longer_inputs() {
    for input in ["(define (f x) ; note\n  \"a\\\"b\" #\\space)", "  'x `(,@y ,z) #(1 2.5)\r\n", "", "a\tb"] {
        let tokens = tokenize_to_vec(input).unwrap();
        let text: String = tokens.iter().map(|t| t.raw_text.as_str()).collect();
        assert_eq!(text, input);
        assert_eq!(tokens.last().unwrap().token_type, TokenType::Eof);
        assert!(tokens[..tokens.len() - 1].iter().all(|t| t.token_type != TokenType::Eof));
    }
}

#[test]
fn stream_stops_at_first_error() {
    let results = tokenize_string("(a { b)");
    let last = results.last().unwrap();
    assert!(last.is_err());
    assert!(results[..results.len() - 1].iter().all(|r| r.is_ok()));
    let e = last.as_ref().unwrap_err();
    assert_eq!(e.found_char, None);
    assert_eq!(e.position, 3);
    assert_eq!(e.reason, LexErrorReason::InvalidCharacter);
    assert_eq!(tokenize_to_vec("(a { b)").unwrap_err(), e.clone());
}

#[test]
fn spans_of_simple_tokens() {
    let tokens = tokenize_to_vec("(ab)").unwrap();
    assert_eq!(tokens[0].span, Span::new(0, 1));
    assert_eq!(tokens[0].raw_text, "(");
    assert_eq!(tokens[1].token_type, TokenType::Symbol("ab".to_string()));
    assert_eq!(tokens[2].token_type, TokenType::RightParen);
}

#[test]
fn filter_keeps_errors_and_drops_trivia() {
    let results = tokenize_string("a ; c\n\"x");
    let filtered = filter_trivia_tokens(&results);
    assert_eq!(filtered.len(), 2);
    assert_eq!(filtered[0].as_ref().unwrap().token_type, TokenType::Symbol("a".to_string()));
    assert!(filtered[1].is_err());
}
