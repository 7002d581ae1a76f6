use arbores::lexer::rules::{emit_character, process_string_escapes};
use arbores::lexer::engine::tokenize_to_vec;
use arbores::lexer::types::TokenType;
use arbores::parser::display::{escape_character, escape_string};
use arbores::parser::parse_from_string;
use arbores::parser::source::SourceBuilder;

#[test]
fn escaping_is_undone_by_escape_processing() {
    for s in ["", "plain", "quote \" and backslash \\", "lines\nand\ttabs\r", "λ\u{0}"] {
        let escaped = escape_string(s);
        assert_eq!(process_string_escapes(&escaped, 3).unwrap(), s);
    }
}

#[test]
fn character_names_read_back() {
    for c in [' ', '\n', '\r', '\t', 'a', '(', 'λ', '\\'] {
        let text = format!("#\\{}", escape_character(c));
        assert_eq!(emit_character(&text, 0).unwrap().token_type, TokenType::Character(c));
    }
}

#[test]
fn successful_parse_rebuilds_text_from_all_tokens_but_the_last() {
    let source = "(define  x 42) ; note\n'(a . b)";
    let out = parse_from_string(source);
    assert!(out.result.is_ok());
    let tokens = tokenize_to_vec(source).unwrap();
    let mut builder = SourceBuilder::new();
    for t in &tokens[..tokens.len() - 1] {
        builder.add_token(t);
    }
    assert_eq!(out.source_text, builder.build());
}

#[test]
fn rebuilt_text_keeps_raw_texts_in_order() {
    let source = "(f +1 #true 1.50) ; c\n`(x ,@y)";
    let tokens = tokenize_to_vec(source).unwrap();
    let mut builder = SourceBuilder::new();
    for t in &tokens {
        builder.add_token(t);
    }
    let text = builder.build();
    let mut rest = text.as_str();
    for t in &tokens {
        if !rest.starts_with(t.raw_text.as_str()) || (t.raw_text.is_empty() && rest == " ") {
            rest = rest.strip_prefix(' ').expect("only a single space may come before a token");
        }
        assert!(rest.starts_with(t.raw_text.as_str()), "{:?} in {:?}", t.raw_text, rest);
        rest = &rest[t.raw_text.len()..];
    }
    assert!(rest.is_empty());
}

#[test]
fn a_lexical_error_fails_the_parse() {
    let out = parse_from_string("(a { b)");
    assert!(out.result.is_err());
    assert!(tokenize_to_vec("(a { b)").is_err());
}

#[test]
fn builder_length_is_the_byte_length_of_its_text() {
    let mut builder = SourceBuilder::new();
    assert_eq!(builder.len(), 0);
    assert!(builder.is_empty());
    for t in &tokenize_to_vec("(λ \"ü\")").unwrap() {
        builder.add_token(t);
        assert_eq!(builder.len(), builder.clone().build().len());
        assert_eq!(builder.is_empty(), builder.len() == 0);
    }
    let text = builder.clone().build();
    assert_eq!(builder.len(), text.len());
    assert!(builder.len() > text.chars().count());
    let mut single = SourceBuilder::new();
    single.add_token(&tokenize_to_vec("λ").unwrap()[0]);
    assert_eq!(single.len(), 2);
}
