use arbores::parser::types::{Number, SExpr, SExprContent, Value};
use arbores::parser::{get_error_summary, is_parse_success, parse_from_string};

fn parse_source(source: &str) -> Result<Vec<SExpr>, String> {
    let output = parse_from_string(source);
    match output.result {
        Ok(exprs) => Ok(exprs),
        Err(e) => Err(format!("Parse error: {}\nSource rebuilt: {}", e.message(), output.source_text)),
    }
}

fn assert_parse_err(source: &str) {
    let result = parse_source(source);
    assert!(result.is_err(), "Expected parse error for '{}', but succeeded", source);
}

fn number_value(n: &Number) -> f64 {
    match n {
        Number::Integer(i) => *i as f64,
        Number::Float(text) => text.parse::<f64>().unwrap(),
    }
}

#[test]
fn test_parse_numbers() {
    let exprs = parse_source("42").unwrap();
    assert_eq!(exprs.len(), 1);
    match &exprs[0].content {
        SExprContent::Atom(Value::Number(n)) => assert_eq!(number_value(n), 42.0),
        _ => panic!("Expected number"),
    }

    let exprs = parse_source("3.14159").unwrap();
    assert_eq!(exprs.len(), 1);
    match &exprs[0].content {
        SExprContent::Atom(Value::Number(n)) => assert!((number_value(n) - 3.14159).abs() < f64::EPSILON),
        _ => panic!("Expected number"),
    }
}

#[test]
fn test_parse_strings() {
    let exprs = parse_source(r#""hello world""#).unwrap();
    assert_eq!(exprs.len(), 1);
    match &exprs[0].content {
        SExprContent::Atom(Value::String(s)) => assert_eq!(s, "hello world"),
        _ => panic!("Expected string"),
    }

    let exprs = parse_source(r#""line1\nline2\t\"quoted\"""#).unwrap();
    assert_eq!(exprs.len(), 1);
    match &exprs[0].content {
        SExprContent::Atom(Value::String(s)) => assert_eq!(s, "line1\nline2\t\"quoted\""),
        _ => panic!("Expected string"),
    }

    let exprs = parse_source(r#""""#).unwrap();
    assert_eq!(exprs.len(), 1);
    match &exprs[0].content {
        SExprContent::Atom(Value::String(s)) => assert_eq!(s, ""),
        _ => panic!("Expected empty string"),
    }
}

#[test]
fn test_parse_booleans() {
    let exprs = parse_source("#t").unwrap();
    assert_eq!(exprs.len(), 1);
    match &exprs[0].content {
        SExprContent::Atom(Value::Boolean(b)) => assert!(*b),
        _ => panic!("Expected boolean true"),
    }

    let exprs = parse_source("#f").unwrap();
    assert_eq!(exprs.len(), 1);
    match &exprs[0].content {
        SExprContent::Atom(Value::Boolean(b)) => assert!(!*b),
        _ => panic!("Expected boolean false"),
    }
}

#[test]
fn test_parse_characters() {
    let exprs = parse_source(r"#\a").unwrap();
    assert_eq!(exprs.len(), 1);
    match &exprs[0].content {
        SExprContent::Atom(Value::Character(c)) => assert_eq!(*c, 'a'),
        _ => panic!("Expected character"),
    }

    let exprs = parse_source(r"#\space").unwrap();
    assert_eq!(exprs.len(), 1);
    match &exprs[0].content {
        SExprContent::Atom(Value::Character(c)) => assert_eq!(*c, ' '),
        _ => panic!("Expected space character"),
    }

    let exprs = parse_source(r"#\newline").unwrap();
    assert_eq!(exprs.len(), 1);
    match &exprs[0].content {
        SExprContent::Atom(Value::Character(c)) => assert_eq!(*c, '\n'),
        _ => panic!("Expected newline character"),
    }
}

#[test]
fn test_parse_symbols() {
    let exprs = parse_source("hello").unwrap();
    assert_eq!(exprs.len(), 1);
    match &exprs[0].content {
        SExprContent::Atom(Value::Symbol(s)) => assert_eq!(s, "hello"),
        _ => panic!("Expected symbol"),
    }

    let exprs = parse_source("hello-world!").unwrap();
    assert_eq!(exprs.len(), 1);
    match &exprs[0].content {
        SExprContent::Atom(Value::Symbol(s)) => assert_eq!(s, "hello-world!"),
        _ => panic!("Expected symbol"),
    }

    let exprs = parse_source("+").unwrap();
    assert_eq!(exprs.len(), 1);
    match &exprs[0].content {
        SExprContent::Atom(Value::Symbol(s)) => assert_eq!(s, "+"),
        _ => panic!("Expected symbol"),
    }
}

#[test]
fn test_parse_empty_list() {
    let exprs = parse_source("()").unwrap();
    assert_eq!(exprs.len(), 1);
    match &exprs[0].content {
        SExprContent::Nil => {},
        _ => panic!("Expected empty list"),
    }
}

#[test]
fn integration_tests_test_parse_simple_list() {
    let exprs = parse_source("(+ 1 2)").unwrap();
    assert_eq!(exprs.len(), 1);

    if let SExprContent::Cons { car, cdr } = &exprs[0].content {
        if let SExprContent::Atom(Value::Symbol(s)) = &car.content {
            assert_eq!(s, "+");
        } else {
            panic!("Expected '+' symbol as first element");
        }
        if let SExprContent::Cons { car: second, cdr: rest } = &cdr.content {
            if let SExprContent::Atom(Value::Number(n)) = &second.content {
                assert_eq!(number_value(n), 1.0);
            } else {
                panic!("Expected number 1 as second element");
            }
            if let SExprContent::Cons { car: third, cdr: end } = &rest.content {
                if let SExprContent::Atom(Value::Number(n)) = &third.content {
                    assert_eq!(number_value(n), 2.0);
                } else {
                    panic!("Expected number 2 as third element");
                }
                if let SExprContent::Nil = &end.content {
                } else {
                    panic!("Expected nil at end of list");
                }
            } else {
                panic!("Expected cons for third element");
            }
        } else {
            panic!("Expected cons for rest of list");
        }
    } else {
        panic!("Expected cons structure for list");
    }
}

#[test]
fn test_parse_nested_lists() {
    let exprs = parse_source("((+ 1 2) (* 3 4))").unwrap();
    assert_eq!(exprs.len(), 1);

    if let SExprContent::Cons { car: first_list, cdr } = &exprs[0].content {
        if let SExprContent::Cons { car, .. } = &first_list.content {
            if let SExprContent::Atom(Value::Symbol(s)) = &car.content {
                assert_eq!(s, "+");
            } else {
                panic!("Expected '+' in first sublist");
            }
        } else {
            panic!("Expected first element to be a list");
        }
        if let SExprContent::Cons { car: second_list, cdr: end } = &cdr.content {
            if let SExprContent::Cons { car, .. } = &second_list.content {
                if let SExprContent::Atom(Value::Symbol(s)) = &car.content {
                    assert_eq!(s, "*");
                } else {
                    panic!("Expected '*' in second sublist");
                }
            } else {
                panic!("Expected second element to be a list");
            }
            if let SExprContent::Nil = &end.content {
            } else {
                panic!("Expected nil at end of outer list");
            }
        } else {
            panic!("Expected second sublist");
        }
    } else {
        panic!("Expected outer list structure");
    }
}

#[test]
fn test_parse_dotted_pairs() {
    let exprs = parse_source("(a . b)").unwrap();
    assert_eq!(exprs.len(), 1);

    if let SExprContent::Cons { car, cdr } = &exprs[0].content {
        if let SExprContent::Atom(Value::Symbol(s)) = &car.content {
            assert_eq!(s, "a");
        } else {
            panic!("Expected symbol 'a' as car");
        }
        if let SExprContent::Atom(Value::Symbol(s)) = &cdr.content {
            assert_eq!(s, "b");
        } else {
            panic!("Expected symbol 'b' as cdr");
        }
    } else {
        panic!("Expected cons structure");
    }
}

#[test]
fn test_parse_improper_lists() {
    let exprs = parse_source("(a b . c)").unwrap();
    assert_eq!(exprs.len(), 1);

    if let SExprContent::Cons { car, cdr } = &exprs[0].content {
        if let SExprContent::Atom(Value::Symbol(s)) = &car.content {
            assert_eq!(s, "a");
        } else {
            panic!("Expected symbol 'a'");
        }
        if let SExprContent::Cons { car: second, cdr: tail } = &cdr.content {
            if let SExprContent::Atom(Value::Symbol(s)) = &second.content {
                assert_eq!(s, "b");
            } else {
                panic!("Expected symbol 'b'");
            }
            if let SExprContent::Atom(Value::Symbol(s)) = &tail.content {
                assert_eq!(s, "c");
            } else {
                panic!("Expected symbol 'c' as tail");
            }
        } else {
            panic!("Expected cons for rest");
        }
    } else {
        panic!("Expected cons structure");
    }
}

#[test]
fn test_parse_quote() {
    let exprs = parse_source("'x").unwrap();
    assert_eq!(exprs.len(), 1);

    if let SExprContent::Cons { car, cdr } = &exprs[0].content {
        if let SExprContent::Atom(Value::Symbol(s)) = &car.content {
            assert_eq!(s, "quote");
        } else {
            panic!("Expected 'quote' symbol");
        }
        if let SExprContent::Cons { car: quoted, cdr: end } = &cdr.content {
            if let SExprContent::Atom(Value::Symbol(s)) = &quoted.content {
                assert_eq!(s, "x");
            } else {
                panic!("Expected quoted symbol 'x'");
            }
            if let SExprContent::Nil = &end.content {
            } else {
                panic!("Expected nil at end");
            }
        } else {
            panic!("Expected quoted expression");
        }
    } else {
        panic!("Expected quote list structure");
    }
}

#[test]
fn test_parse_quasiquote() {
    let exprs = parse_source("`(a ,b)").unwrap();
    assert_eq!(exprs.len(), 1);

    if let SExprContent::Cons { car, .. } = &exprs[0].content {
        if let SExprContent::Atom(Value::Symbol(s)) = &car.content {
            assert_eq!(s, "quasiquote");
        } else {
            panic!("Expected 'quasiquote' symbol");
        }
    } else {
        panic!("Expected quasiquote structure");
    }
}

#[test]
fn test_parse_unquote() {
    let exprs = parse_source(",x").unwrap();
    assert_eq!(exprs.len(), 1);

    if let SExprContent::Cons { car, .. } = &exprs[0].content {
        if let SExprContent::Atom(Value::Symbol(s)) = &car.content {
            assert_eq!(s, "unquote");
        } else {
            panic!("Expected 'unquote' symbol");
        }
    } else {
        panic!("Expected unquote structure");
    }
}

#[test]
fn test_parse_unquote_splicing() {
    let exprs = parse_source(",@x").unwrap();
    assert_eq!(exprs.len(), 1);

    if let SExprContent::Cons { car, .. } = &exprs[0].content {
        if let SExprContent::Atom(Value::Symbol(s)) = &car.content {
            assert_eq!(s, "unquote-splicing");
        } else {
            panic!("Expected 'unquote-splicing' symbol");
        }
    } else {
        panic!("Expected unquote-splicing structure");
    }
}

#[test]
fn test_parse_complex_expression() {
    let source = r#"
            (define factorial
              (lambda (n)
                (if (= n 0)
                    1
                    (* n (factorial (- n 1))))))
        "#;

    let exprs = parse_source(source).unwrap();
    assert_eq!(exprs.len(), 1);

    if let SExprContent::Cons { car, .. } = &exprs[0].content {
        if let SExprContent::Atom(Value::Symbol(s)) = &car.content {
            assert_eq!(s, "define");
        } else {
            panic!("Expected 'define' symbol");
        }
    } else {
        panic!("Expected define expression");
    }
}

#[test]
fn test_parse_multiple_expressions() {
    let source = r#"
            (define x 42)
            (define y "hello")
            (+ x 1)
        "#;

    let exprs = parse_source(source).unwrap();
    assert_eq!(exprs.len(), 3);

    if let SExprContent::Cons { car, .. } = &exprs[0].content {
        if let SExprContent::Atom(Value::Symbol(s)) = &car.content {
            assert_eq!(s, "define");
        } else {
            panic!("Expected first 'define'");
        }
    }
    if let SExprContent::Cons { car, .. } = &exprs[1].content {
        if let SExprContent::Atom(Value::Symbol(s)) = &car.content {
            assert_eq!(s, "define");
        } else {
            panic!("Expected second 'define'");
        }
    }
    if let SExprContent::Cons { car, .. } = &exprs[2].content {
        if let SExprContent::Atom(Value::Symbol(s)) = &car.content {
            assert_eq!(s, "+");
        } else {
            panic!("Expected '+' expression");
        }
    }
}

#[test]
fn test_parse_with_comments() {
    let source = r#"
            ; 这是一个注释
            (define x 42) ; 行末注释
            ; 另一个注释
            (+ x 1)
        "#;

    let exprs = parse_source(source).unwrap();
    assert_eq!(exprs.len(), 2);

    if let SExprContent::Cons { car, .. } = &exprs[0].content {
        if let SExprContent::Atom(Value::Symbol(s)) = &car.content {
            assert_eq!(s, "define");
        }
    }

    if let SExprContent::Cons { car, .. } = &exprs[1].content {
        if let SExprContent::Atom(Value::Symbol(s)) = &car.content {
            assert_eq!(s, "+");
        }
    }
}

#[test]
fn test_parse_unclosed_list() {
    assert_parse_err("(+ 1 2");
    assert_parse_err("((+ 1 2)");
    assert_parse_err("(define x");
}

#[test]
fn test_parse_unexpected_closing_paren() {
    assert_parse_err("(+ 1 2))");
    assert_parse_err(")");
    assert_parse_err("())");
}

#[test]
fn test_parse_invalid_dotted_list() {
    assert_parse_err("(. a)");
    assert_parse_err("(a . )");
    assert_parse_err("(a . b c)");
    assert_parse_err("(a .. b)");
}

#[test]
fn test_parse_unterminated_string() {
    assert_parse_err(r#""hello"#);
    assert_parse_err(r#""hello world"#);
}

#[test]
fn test_parse_invalid_character_literal() {
    assert_parse_err(r"#\");
    assert_parse_err(r"#\invalid");
}

#[test]
fn test_parse_empty_source() {
    let exprs = parse_source("").unwrap();
    assert_eq!(exprs.len(), 0);

    let exprs = parse_source("   \n\t  ").unwrap();
    assert_eq!(exprs.len(), 0);
}

#[test]
fn test_parse_only_comments() {
    let source = r#"
            ; 只有注释的文件
            ; 另一行注释
        "#;

    let exprs = parse_source(source).unwrap();
    assert_eq!(exprs.len(), 0);
}

#[test]
fn test_parse_deeply_nested() {
    let source = "((((((42))))))";
    let exprs = parse_source(source).unwrap();
    assert_eq!(exprs.len(), 1);

    let mut current = &exprs[0];
    for _ in 0..6 {
        if let SExprContent::Cons { car, cdr } = &current.content {
            current = car;
            if let SExprContent::Nil = &cdr.content {
            } else {
                panic!("Expected nil in nested list");
            }
        } else {
            panic!("Expected nested cons structure");
        }
    }

    if let SExprContent::Atom(Value::Number(n)) = &current.content {
        assert_eq!(number_value(n), 42.0);
    } else {
        panic!("Expected number at innermost level");
    }
}

#[test]
fn test_parse_whitespace_handling() {
    let sources = vec!["(+ 1 2)", "(+\t1\t2)", "(+\n1\n2)", "(+ \t\n 1 \t\n 2)", "( + 1 2 )"];

    for source in sources {
        let exprs = parse_source(source).unwrap();
        assert_eq!(exprs.len(), 1, "Failed for source: {}", source);

        if let SExprContent::Cons { car, .. } = &exprs[0].content {
            if let SExprContent::Atom(Value::Symbol(s)) = &car.content {
                assert_eq!(s, "+", "Failed for source: {}", source);
            }
        }
    }
}

#[test]
fn test_parse_large_list() {
    let mut source = String::from("(");
    for i in 0..1000 {
        source.push_str(&format!("{} ", i));
    }
    source.push(')');

    let exprs = parse_source(&source).unwrap();
    assert_eq!(exprs.len(), 1);

    if let SExprContent::Cons { .. } = &exprs[0].content {
    } else {
        panic!("Expected list structure");
    }
}

#[test]
fn test_parse_many_expressions() {
    let mut source = String::new();
    for i in 0..100 {
        source.push_str(&format!("(expr-{}) ", i));
    }

    let exprs = parse_source(&source).unwrap();
    assert_eq!(exprs.len(), 100);

    for (i, expr) in exprs.iter().enumerate() {
        if let SExprContent::Cons { car, .. } = &expr.content {
            if let SExprContent::Atom(Value::Symbol(s)) = &car.content {
                assert_eq!(s, &format!("expr-{}", i));
            }
        }
    }
}

#[test]
fn test_parse_negative_as_expression() {
    let exprs = parse_source("(- 123)").unwrap();
    assert_eq!(exprs.len(), 1);

    if let SExprContent::Cons { car, cdr } = &exprs[0].content {
        if let SExprContent::Atom(Value::Symbol(s)) = &car.content {
            assert_eq!(s, "-");
        } else {
            panic!("Expected '-' symbol");
        }
        if let SExprContent::Cons { car: num, cdr: end } = &cdr.content {
            if let SExprContent::Atom(Value::Number(n)) = &num.content {
                assert_eq!(number_value(n), 123.0);
            } else {
                panic!("Expected number 123");
            }
            if let SExprContent::Nil = &end.content {
            } else {
                panic!("Expected nil at end");
            }
        } else {
            panic!("Expected rest of list");
        }
    } else {
        panic!("Expected list structure");
    }
}

#[test]
fn error_messages_of_common_mistakes() {
    let out = parse_from_string("(+ 1 2");
    assert!(!is_parse_success(&out));
    assert_eq!(
        get_error_summary(&out).unwrap(),
        "Unexpected token at position 6: expected expression, found Eof"
    );
    assert_eq!(out.source_text, "(+  1  2 ");

    let out = parse_from_string(")");
    assert_eq!(
        get_error_summary(&out).unwrap(),
        "Unexpected token at position 0: expected expression, found RightParen"
    );

    let out = parse_from_string("(. a)");
    assert_eq!(
        get_error_summary(&out).unwrap(),
        "Unexpected token at position 1: invalid dotted list: InvalidDotPosition"
    );

    let out = parse_from_string("(a . b c)");
    assert_eq!(
        get_error_summary(&out).unwrap(),
        "Unexpected token at position 3: invalid dotted list: MultipleTailElements"
    );

    let out = parse_from_string("\"abc");
    assert_eq!(
        get_error_summary(&out).unwrap(),
        "Lexical error: LexError { position: 4, found_char: None, reason: UnterminatedString }"
    );

    let out = parse_from_string("(a)");
    assert!(is_parse_success(&out));
    assert_eq!(get_error_summary(&out), None);
    assert_eq!(out.source_text, "(a)");
}

#[test]
fn source_text_of_a_full_parse() {
    let out = parse_from_string("(a  b) ; c\n'x");
    assert!(is_parse_success(&out));
    assert_eq!(out.source_text, "(a   b) ; c\n 'x");
}
