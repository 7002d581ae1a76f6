use arbores::eval::builtins::{car, cdr, cons, is_null, is_number, is_pair, is_string, is_symbol, list};
use arbores::eval::machine::{resume, Evaluator, State};
use arbores::eval::value::{from_vec, to_vec, value_of_sexpr, value_to_string, Builtin, SchemeError, Value};
use arbores::parser::parse_from_string;

/// Runs the evaluator on `input`; the only arithmetic handed out that these
/// tests need is integer subtraction, done here as the program around the
/// library does it.
fn eval_in(evaluator: &mut Evaluator, input: &str) -> Result<Value, SchemeError> {
    let exprs = parse_from_string(input).result.expect("parses");
    let mut result = Value::Nil;
    for e in &exprs {
        let mut state = evaluator.start(value_of_sexpr(e).expect("no vectors"));
        result = loop {
            state = match state {
                State::Done(r) => break r?,
                State::Arithmetic { op, args, k } => {
                    assert_eq!(op, Builtin::Subtract);
                    let ns: Vec<i64> = to_vec(&args)
                        .unwrap()
                        .iter()
                        .map(|v| match v {
                            Value::Integer(n) => *n,
                            _ => panic!("integers only"),
                        })
                        .collect();
                    let r = if ns.len() == 1 { -ns[0] } else { ns[0] - ns[1..].iter().sum::<i64>() };
                    resume(k, Ok(Value::Integer(r)))
                },
                other => evaluator.step(other),
            };
        };
    }
    Ok(result)
}

fn integer(n: i64) -> Value {
    Value::Integer(n)
}

fn sym(s: &str) -> Value {
    Value::Symbol(s.to_string())
}

#[test]
fn test_eval_atoms() {
    let mut evaluator = Evaluator::new();
    assert_eq!(eval_in(&mut evaluator, "42").unwrap(), Value::Integer(42));
    assert_eq!(eval_in(&mut evaluator, "3.14").unwrap(), Value::Float("3.14".to_string()));
    assert_eq!(eval_in(&mut evaluator, "\"hello\"").unwrap(), Value::String("hello".to_string()));
    assert_eq!(eval_in(&mut evaluator, "#t").unwrap(), Value::Bool(true));
}

#[test]
fn test_eval_quote() {
    let mut evaluator = Evaluator::new();
    assert_eq!(eval_in(&mut evaluator, "'foo").unwrap(), Value::Symbol("foo".to_string()));
    let expected = from_vec(&vec![Value::Integer(1), Value::Integer(2), Value::Integer(3)]);
    assert_eq!(eval_in(&mut evaluator, "'(1 2 3)").unwrap(), expected);
}

#[test]
fn test_eval_if() {
    let mut evaluator = Evaluator::new();
    assert_eq!(eval_in(&mut evaluator, "(if #t 1 2)").unwrap(), Value::Integer(1));
    assert_eq!(eval_in(&mut evaluator, "(if #f 1 2)").unwrap(), Value::Integer(2));
    assert_eq!(eval_in(&mut evaluator, "(if #f 1)").unwrap(), Value::Nil);
}

#[test]
fn test_define_and_lookup() {
    let mut evaluator = Evaluator::new();
    assert_eq!(eval_in(&mut evaluator, "(define x 42)").unwrap(), Value::Nil);
    assert_eq!(eval_in(&mut evaluator, "x").unwrap(), Value::Integer(42));
    assert_eq!(eval_in(&mut evaluator, "(define name \"hello\")").unwrap(), Value::Nil);
    assert_eq!(eval_in(&mut evaluator, "name").unwrap(), Value::String("hello".to_string()));
}

#[test]
fn test_set_variable() {
    let mut evaluator = Evaluator::new();
    eval_in(&mut evaluator, "(define x 10)").unwrap();
    assert_eq!(eval_in(&mut evaluator, "x").unwrap(), Value::Integer(10));
    assert_eq!(eval_in(&mut evaluator, "(set! x 20)").unwrap(), Value::Nil);
    assert_eq!(eval_in(&mut evaluator, "x").unwrap(), Value::Integer(20));
}

#[test]
fn test_lambda_with_environment() {
    let mut evaluator = Evaluator::new();
    eval_in(&mut evaluator, "(define add (lambda (x y) (+ x y)))").unwrap();
    assert_eq!(eval_in(&mut evaluator, "(add 3 4)").unwrap(), Value::Integer(7));
    eval_in(&mut evaluator, "(define make-adder (lambda (n) (lambda (x) (+ x n))))").unwrap();
    eval_in(&mut evaluator, "(define add5 (make-adder 5))").unwrap();
    assert_eq!(eval_in(&mut evaluator, "(add5 10)").unwrap(), Value::Integer(15));
}

#[test]
fn test_logical_operators() {
    let mut evaluator = Evaluator::new();
    assert_eq!(eval_in(&mut evaluator, "(and)").unwrap(), Value::Bool(true));
    assert_eq!(eval_in(&mut evaluator, "(and #t)").unwrap(), Value::Bool(true));
    assert_eq!(eval_in(&mut evaluator, "(and #f)").unwrap(), Value::Bool(false));
    assert_eq!(eval_in(&mut evaluator, "(and #t #t)").unwrap(), Value::Bool(true));
    assert_eq!(eval_in(&mut evaluator, "(and #t #f)").unwrap(), Value::Bool(false));
    assert_eq!(eval_in(&mut evaluator, "(and 1 2 3)").unwrap(), Value::Integer(3));
    assert_eq!(eval_in(&mut evaluator, "(or)").unwrap(), Value::Bool(false));
    assert_eq!(eval_in(&mut evaluator, "(or #f)").unwrap(), Value::Bool(false));
    assert_eq!(eval_in(&mut evaluator, "(or #t)").unwrap(), Value::Bool(true));
    assert_eq!(eval_in(&mut evaluator, "(or #f #t)").unwrap(), Value::Bool(true));
    assert_eq!(eval_in(&mut evaluator, "(or #f #f)").unwrap(), Value::Bool(false));
    assert_eq!(eval_in(&mut evaluator, "(or #f 42)").unwrap(), Value::Integer(42));
}

#[test]
fn test_cond() {
    let mut evaluator = Evaluator::new();
    assert_eq!(eval_in(&mut evaluator, "(cond (#t 1))").unwrap(), Value::Integer(1));
    assert_eq!(eval_in(&mut evaluator, "(cond (#f 1) (#t 2))").unwrap(), Value::Integer(2));
    assert_eq!(eval_in(&mut evaluator, "(cond (#f 1) (else 42))").unwrap(), Value::Integer(42));
    assert_eq!(eval_in(&mut evaluator, "(cond (#f 1) (#f 2))").unwrap(), Value::Nil);
}

#[test]
fn test_cons_car_cdr() {
    let args = vec![Value::Integer(1), Value::Integer(2)];
    let pair = cons(&args).unwrap();
    assert_eq!(car(&[pair.clone()]).unwrap(), Value::Integer(1));
    assert_eq!(cdr(&[pair]).unwrap(), Value::Integer(2));
}

#[test]
fn test_list() {
    let args = vec![Value::Integer(1), Value::Integer(2), Value::Integer(3)];
    let result = list(&args).unwrap();
    assert_eq!(to_vec(&result).map(|v| v.len()), Some(3));
}

#[test]
fn let_begin_and_closures() {
    let mut evaluator = Evaluator::new();
    assert_eq!(eval_in(&mut evaluator, "(let ((a 1) (b 2)) (+ a b))").unwrap(), integer(3));
    assert_eq!(eval_in(&mut evaluator, "(let () 5)").unwrap(), integer(5));
    assert_eq!(eval_in(&mut evaluator, "(begin 1 2 3)").unwrap(), integer(3));
    assert_eq!(eval_in(&mut evaluator, "(begin)").unwrap(), Value::Nil);
    assert_eq!(eval_in(&mut evaluator, "(define x 1) (let ((x 2)) (set! x 3)) x").unwrap(), integer(1));
    assert_eq!(eval_in(&mut evaluator, "(cond (#f 1) (else 1 2 9))").unwrap(), integer(9));
    assert_eq!(eval_in(&mut evaluator, "(cond (7))").unwrap(), integer(7));
}

#[test]
fn list_builtins_through_the_evaluator() {
    let mut evaluator = Evaluator::new();
    assert_eq!(eval_in(&mut evaluator, "(car '(1 2))").unwrap(), integer(1));
    assert_eq!(eval_in(&mut evaluator, "(cdr '(1 2))").unwrap(), from_vec(&vec![integer(2)]));
    assert_eq!(eval_in(&mut evaluator, "(cons 1 '())").unwrap(), from_vec(&vec![integer(1)]));
    assert_eq!(eval_in(&mut evaluator, "(list 1 'a)").unwrap(), from_vec(&vec![integer(1), sym("a")]));
    assert_eq!(eval_in(&mut evaluator, "(null? '())").unwrap(), Value::Bool(true));
    assert_eq!(eval_in(&mut evaluator, "(pair? '())").unwrap(), Value::Bool(false));
    assert_eq!(eval_in(&mut evaluator, "(number? 2.5)").unwrap(), Value::Bool(true));
    assert_eq!(eval_in(&mut evaluator, "(symbol? 'a)").unwrap(), Value::Bool(true));
    assert_eq!(eval_in(&mut evaluator, "(string? \"s\")").unwrap(), Value::Bool(true));
}

#[test]
fn evaluation_errors() {
    let mut evaluator = Evaluator::new();
    assert_eq!(eval_in(&mut evaluator, "y"), Err(SchemeError::UndefinedVariable("y".to_string())));
    assert_eq!(
        eval_in(&mut evaluator, "(car '())"),
        Err(SchemeError::RuntimeError("car of empty list".to_string()))
    );
    assert_eq!(
        eval_in(&mut evaluator, "(car 5)"),
        Err(SchemeError::TypeError("car expects a pair, got 5".to_string()))
    );
    assert_eq!(
        eval_in(&mut evaluator, "(car 1 2)"),
        Err(SchemeError::ArityError("Expected 1 arguments, got 2".to_string()))
    );
    assert_eq!(
        eval_in(&mut evaluator, "(1 2)"),
        Err(SchemeError::TypeError("Cannot apply non-function: 1".to_string()))
    );
    assert_eq!(
        eval_in(&mut evaluator, "(quote)"),
        Err(SchemeError::ArityError("quote requires exactly 1 argument".to_string()))
    );
    assert_eq!(
        eval_in(&mut evaluator, "(define 1 2)"),
        Err(SchemeError::TypeError("define expects a symbol".to_string()))
    );
    assert_eq!(
        eval_in(&mut evaluator, "(set! zz 2)"),
        Err(SchemeError::UndefinedVariable("zz".to_string()))
    );
    assert_eq!(
        eval_in(&mut evaluator, "(lambda (1) 2)"),
        Err(SchemeError::TypeError("lambda parameters must be symbols".to_string()))
    );
    assert_eq!(
        eval_in(&mut evaluator, "((lambda (x) x))"),
        Err(SchemeError::ArityError("Expected 1 arguments, got 0".to_string()))
    );
    assert_eq!(
        eval_in(&mut evaluator, "(let ((1 2)) 3)"),
        Err(SchemeError::TypeError("let binding name must be a symbol".to_string()))
    );
    assert_eq!(
        eval_in(&mut evaluator, "(cond 5)"),
        Err(SchemeError::SyntaxError("cond clause must be a list".to_string()))
    );
    assert_eq!(
        eval_in(&mut evaluator, "(a . b)"),
        Err(SchemeError::RuntimeError("Invalid list structure".to_string()))
    );
}

#[test]
fn values_are_written() {
    assert_eq!(value_to_string(&from_vec(&vec![integer(1), Value::String("a\"b".to_string()), sym("c")])), "(1 \"a\\\"b\" c)");
    let dotted = cons(&[integer(1), integer(2)]).unwrap();
    assert_eq!(value_to_string(&dotted), "(1 . 2)");
    assert_eq!(value_to_string(&Value::Bool(false)), "#f");
    assert_eq!(value_to_string(&Value::Nil), "()");
    assert_eq!(value_to_string(&Value::BuiltinFunction { op: Builtin::Car, arity: Some(1) }), "#<builtin:car>");
    assert_eq!(is_null(&[Value::Nil]).unwrap(), Value::Bool(true));
    assert_eq!(is_pair(&[dotted]).unwrap(), Value::Bool(true));
    assert_eq!(is_number(&[Value::Float("1e3".to_string())]).unwrap(), Value::Bool(true));
    assert_eq!(is_symbol(&[integer(1)]).unwrap(), Value::Bool(false));
    assert_eq!(is_string(&[]).unwrap_err(), SchemeError::ArityError("string? requires exactly 1 argument".to_string()));
}

#[test]
fn test_eval_arithmetic() {
    let mut evaluator = Evaluator::new();
    assert_eq!(eval_in(&mut evaluator, "(+ 1 2 3)").unwrap(), Value::Integer(6));
    assert_eq!(eval_in(&mut evaluator, "(* 2 3 4)").unwrap(), Value::Integer(24));
    assert_eq!(eval_in(&mut evaluator, "(- 10 3)").unwrap(), Value::Integer(7));
}

#[test]
fn test_comparison_operators() {
    let mut evaluator = Evaluator::new();
    assert_eq!(eval_in(&mut evaluator, "(> 5 3)").unwrap(), Value::Bool(true));
    assert_eq!(eval_in(&mut evaluator, "(> 3 5)").unwrap(), Value::Bool(false));
    assert_eq!(eval_in(&mut evaluator, "(<= 3 5)").unwrap(), Value::Bool(true));
    assert_eq!(eval_in(&mut evaluator, "(<= 5 5)").unwrap(), Value::Bool(true));
    assert_eq!(eval_in(&mut evaluator, "(<= 7 5)").unwrap(), Value::Bool(false));
    assert_eq!(eval_in(&mut evaluator, "(>= 5 3)").unwrap(), Value::Bool(true));
    assert_eq!(eval_in(&mut evaluator, "(>= 5 5)").unwrap(), Value::Bool(true));
    assert_eq!(eval_in(&mut evaluator, "(>= 3 5)").unwrap(), Value::Bool(false));
}

#[test]
fn float_and_overflowing_arithmetic_is_handed_out() {
    let mut evaluator = Evaluator::new();
    let e = parse_from_string("(+ 1 2.5)").result.unwrap();
    let mut state = evaluator.start(value_of_sexpr(&e[0]).unwrap());
    while !matches!(state, State::Arithmetic { .. } | State::Done(_)) {
        state = evaluator.step(state);
    }
    match state {
        State::Arithmetic { op, args, .. } => {
            assert_eq!(op, Builtin::Add);
            assert_eq!(to_vec(&args).unwrap(), vec![integer(1), Value::Float("2.5".to_string())]);
        },
        _ => panic!("expected an arithmetic request"),
    }
    let e = parse_from_string("(* 9223372036854775807 2)").result.unwrap();
    let mut state = evaluator.start(value_of_sexpr(&e[0]).unwrap());
    while !matches!(state, State::Arithmetic { .. } | State::Done(_)) {
        state = evaluator.step(state);
    }
    assert!(matches!(state, State::Arithmetic { op: Builtin::Multiply, .. }));
}
