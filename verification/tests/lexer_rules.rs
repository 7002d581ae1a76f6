use arbores::lexer::chars::{
    is_delimiter_char, is_digit_char, is_newline_char, is_number_char, is_number_start_char,
    is_symbol_char, is_symbol_start_char, is_whitespace_char,
};
use arbores::lexer::rules::{
    emit_character, emit_comment, emit_error, emit_number, emit_string, emit_symbol,
    emit_vector_start, process_string_escapes,
};
use arbores::lexer::types::{LexErrorReason, TokenType};

fn float_value(tt: &TokenType) -> f64 {
    match tt {
        TokenType::Float(text) => text.parse::<f64>().unwrap(),
        other => panic!("Expected a floating-point token, got {:?}", other),
    }
}

#[test]
fn test_emit_number() {
    let pos = 0;

    let result = emit_number("42", pos).unwrap();
    assert_eq!(result.token_type, TokenType::Integer(42));
    assert_eq!(result.raw_text, "42");

    let result = emit_number("-123", pos).unwrap();
    assert_eq!(result.token_type, TokenType::Integer(-123));

    let result = emit_number("3.14", pos).unwrap();
    assert_eq!(float_value(&result.token_type), 3.14);

    let result = emit_number("-123.45", pos).unwrap();
    assert_eq!(float_value(&result.token_type), -123.45);

    let result = emit_number("1.23e4", pos).unwrap();
    assert_eq!(float_value(&result.token_type), 1.23e4);

    let result = emit_number("-2.5E-3", pos).unwrap();
    assert_eq!(float_value(&result.token_type), -2.5E-3);

    let result = emit_number("invalid", pos);
    assert!(result.is_err());
}

#[test]
fn test_emit_string() {
    let pos = 0;

    let result = emit_string("\"hello\"", pos).unwrap();
    assert_eq!(result.token_type, TokenType::String("hello".to_string()));

    let result = emit_string("\"hello\\nworld\"", pos).unwrap();
    assert_eq!(result.token_type, TokenType::String("hello\nworld".to_string()));

    let result = emit_string("\"unterminated", pos);
    assert!(result.is_err());
}

#[test]
fn test_emit_symbol() {
    let pos = 0;

    let result = emit_symbol("symbol", pos).unwrap();
    assert_eq!(result.token_type, TokenType::Symbol("symbol".to_string()));

    let result = emit_symbol("#t", pos).unwrap();
    assert_eq!(result.token_type, TokenType::Boolean(true));

    let result = emit_symbol("#f", pos).unwrap();
    assert_eq!(result.token_type, TokenType::Boolean(false));
}

#[test]
fn test_character_predicates() {
    assert!(is_digit_char('0'));
    assert!(is_digit_char('9'));
    assert!(!is_digit_char('a'));
    assert!(!is_digit_char('.'));

    assert!(is_number_start_char('0'));
    assert!(is_number_start_char('+'));
    assert!(is_number_start_char('-'));
    assert!(!is_number_start_char('a'));

    assert!(is_number_char('0'));
    assert!(is_number_char('.'));
    assert!(is_number_char('e'));
    assert!(is_number_char('E'));
    assert!(is_number_char('+'));
    assert!(is_number_char('-'));
    assert!(!is_number_char('a'));

    assert!(is_symbol_start_char('a'));
    assert!(is_symbol_start_char('+'));
    assert!(!is_symbol_start_char('0'));

    assert!(is_whitespace_char(' '));
    assert!(is_whitespace_char('\t'));
    assert!(!is_whitespace_char('\n'));

    assert!(is_newline_char('\n'));
    assert!(is_newline_char('\r'));
    assert!(!is_newline_char(' '));
}

#[test]
fn test_process_string_escapes() {
    let pos = 0;

    let result = process_string_escapes("hello", pos).unwrap();
    assert_eq!(result, "hello");

    let result = process_string_escapes("hello\\nworld", pos).unwrap();
    assert_eq!(result, "hello\nworld");

    let result = process_string_escapes("quote: \\\"", pos).unwrap();
    assert_eq!(result, "quote: \"");

    let result = process_string_escapes("invalid\\x", pos);
    assert!(result.is_err());
}

#[test]
fn test_emit_vector_start() {
    let pos = 5;
    let result = emit_vector_start("#(", pos).unwrap();

    assert_eq!(result.token_type, TokenType::VectorStart);
    assert_eq!(result.span.start, pos);
    assert_eq!(result.span.end, pos + 2);
    assert_eq!(result.raw_text, "#(");
}

#[test]
fn escape_errors_name_the_escape_and_the_trailing_backslash() {
    let e = process_string_escapes("a\\q", 7).unwrap_err();
    assert_eq!(e.position, 7);
    assert_eq!(e.found_char, Some('q'));
    assert_eq!(e.reason, LexErrorReason::InvalidEscape { escape_char: 'q' });
    let e = process_string_escapes("abc\\", 3).unwrap_err();
    assert_eq!(e.reason, LexErrorReason::UnterminatedString);
    assert_eq!(process_string_escapes("\\t\\r\\\\", 0).unwrap(), "\t\r\\");
}

#[test]
fn number_edge_cases() {
    assert_eq!(emit_number("9223372036854775807", 0).unwrap().token_type, TokenType::Integer(i64::MAX));
    assert_eq!(emit_number("-9223372036854775808", 0).unwrap().token_type, TokenType::Integer(i64::MIN));
    let big = emit_number("9223372036854775808", 0).unwrap();
    assert_eq!(big.token_type, TokenType::Float("9223372036854775808".to_string()));
    let e = emit_number("1e", 2).unwrap_err();
    assert_eq!(e.reason, LexErrorReason::InvalidNumber { partial_text: "1e".to_string() });
    assert_eq!(e.position, 2);
    assert!(emit_number("1.2.3", 0).is_err());
    assert_eq!(emit_number("123.", 0).unwrap().token_type, TokenType::Float("123.".to_string()));
}

#[test]
fn other_emitters() {
    let c = emit_comment("; hi\n", 3).unwrap();
    assert_eq!(c.token_type, TokenType::Comment(" hi\n".to_string()));
    assert_eq!(c.raw_text, "; hi\n");
    assert_eq!(emit_character("#\\space", 0).unwrap().token_type, TokenType::Character(' '));
    assert_eq!(emit_character("#\\x", 0).unwrap().token_type, TokenType::Character('x'));
    assert!(emit_character("#\\invalid", 0).is_err());
    let e = emit_error("@", 4).unwrap_err();
    assert_eq!(e.found_char, Some('@'));
    assert_eq!(e.reason, LexErrorReason::InvalidCharacter);
    assert_eq!(emit_symbol("#true", 0).unwrap().token_type, TokenType::Boolean(true));
    assert_eq!(emit_symbol("#false", 0).unwrap().token_type, TokenType::Boolean(false));
}

#[test]
fn delimiters_and_symbol_characters() {
    for c in ['(', ')', '[', ']', '"', ';', ' ', '\t', '\n', '\r'] {
        assert!(is_delimiter_char(c), "{:?}", c);
    }
    assert!(!is_delimiter_char('a'));
    assert!(!is_delimiter_char('\''));
    assert!(is_symbol_char('!'));
    assert!(is_symbol_char('7'));
    assert!(!is_symbol_char('('));
}

#[test]
fn whitespace_and_line_breaks_split_unicode_whitespace() {
    for c in ['\t', '\n', '\u{b}', '\u{c}', '\r', ' ', '\u{85}', '\u{a0}', '\u{2003}', '\u{3000}', 'a', '(', '0', '\u{180e}'] {
        let ws = arbores::lexer::chars::is_whitespace_char(c);
        let nl = arbores::lexer::chars::is_newline_char(c);
        assert!(!(ws && nl));
        assert_eq!(ws || nl, c.is_whitespace());
    }
}

#[test]
fn delimiters_end_symbols_and_numbers() {
    for c in ['(', ')', '[', ']', ';', '"', ' ', '\t', '\n', '\r', '\u{3000}'] {
        assert!(arbores::lexer::chars::is_delimiter_char(c));
        assert!(!arbores::lexer::chars::is_symbol_char(c));
        assert!(!arbores::lexer::chars::is_number_char(c));
    }
    for c in ['a', 'Z', '7', '+', '#', 'λ'] {
        assert!(!arbores::lexer::chars::is_delimiter_char(c));
    }
    assert!(arbores::lexer::chars::is_symbol_start_char('λ'));
    assert!(!arbores::lexer::chars::is_symbol_start_char('1'));
}

#[test]
fn unterminated_string_emitter() {
    let e = arbores::lexer::rules::emit_unterminated_string("\"ab", 3).unwrap_err();
    assert_eq!(e.reason, LexErrorReason::UnterminatedString);
    assert_eq!(e.position, 3);
    assert_eq!(e.found_char, None);
}
