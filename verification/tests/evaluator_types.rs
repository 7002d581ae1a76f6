use arbores::evaluator::types::{FunctionArity, RcString, Signature, StringRef, TailContext};
use arbores::evaluator::errors::EvaluateError;
use arbores::lexer::types::Span;
use arbores::parser::types::{SExpr, SExprContent, Value};
use std::rc::Rc;

#[test]
fn arity_matches() {
    assert!(FunctionArity::Exact(2).matches(2));
    assert!(!FunctionArity::Exact(2).matches(3));
    assert!(FunctionArity::AtLeast(1).matches(1));
    assert!(FunctionArity::AtLeast(1).matches(9));
    assert!(!FunctionArity::AtLeast(1).matches(0));
    assert!(FunctionArity::Range(1, 3).matches(1));
    assert!(FunctionArity::Range(1, 3).matches(3));
    assert!(!FunctionArity::Range(1, 3).matches(4));
    assert!(!FunctionArity::Range(1, 3).matches(0));
}

#[test]
fn arity_descriptions() {
    assert_eq!(FunctionArity::Exact(2).description(), "2");
    assert_eq!(FunctionArity::AtLeast(0).description(), "at least 0");
    assert_eq!(FunctionArity::Range(1, 10).description(), "1 to 10");
    assert_eq!(FunctionArity::Exact(usize::MAX).description(), usize::MAX.to_string());
}

#[test]
fn signature_accepts_by_arity() {
    let sig = Signature { name: "car".to_string(), arity: FunctionArity::Exact(1) };
    assert!(sig.accepts(1));
    assert!(!sig.accepts(2));
    assert_eq!(sig.name, "car");
}

#[test]
fn tail_contexts_differ() {
    assert_ne!(TailContext::TailPosition, TailContext::NonTailPosition);
}

#[test]
fn shared_strings() {
    let s = StringRef::new("héllo".to_string());
    assert_eq!(s.as_str(), "héllo");
    assert_eq!(s.len(), 6);
    assert!(!s.is_empty());
    let t = StringRef::from_str("");
    assert!(t.is_empty());
    assert_eq!(t.len(), 0);
    let r = RcString::new("abc".to_string());
    assert_eq!(r.as_str(), "abc");
    assert_eq!(r.clone().as_str(), "abc");
}

#[test]
fn evaluation_error_messages() {
    let expr = Rc::new(SExpr::with_span(SExprContent::Atom(Value::Symbol("f".to_string())), Span::new(0, 1)));
    let e = EvaluateError::UndefinedVariable { expr: expr.clone(), name: "f".to_string() };
    assert_eq!(e.message(), "Undefined variable: f");
    assert_eq!(*e.expr().span, Span::new(0, 1));
    let e = EvaluateError::ArgumentCountMismatch { expr: expr.clone(), expected: "at least 1".to_string(), actual: 0 };
    assert_eq!(e.message(), "Argument count mismatch: expected at least 1, got 0");
    let e = EvaluateError::DivisionByZero { expr: expr.clone() };
    assert_eq!(e.message(), "Division by zero");
    let e = EvaluateError::TypeMismatch { expr: expr.clone(), expected: "number".to_string(), actual: "string".to_string() };
    assert_eq!(e.message(), "Type mismatch: expected number, got string");
    let e = EvaluateError::NotImplemented { expr, feature: "list evaluation".to_string() };
    assert_eq!(e.message(), "Feature not implemented: list evaluation");
}

#[test]
fn builtin_signature_table() {
    let sigs = arbores::evaluator::types::builtin_signatures();
    let names: Vec<&str> = sigs.iter().map(|s| s.name.as_str()).collect();
    assert_eq!(
        names,
        vec!["+", "-", "*", "/", "=", "<", ">", "car", "cdr", "cons", "list", "number?", "string?", "boolean?", "null?", "pair?"]
    );
    assert_eq!(sigs[0].arity, FunctionArity::AtLeast(0));
    assert_eq!(sigs[1].arity, FunctionArity::AtLeast(1));
    assert_eq!(sigs[4].arity, FunctionArity::AtLeast(2));
    assert_eq!(sigs[9].arity, FunctionArity::Exact(2));
    assert_eq!(sigs[15].arity, FunctionArity::Exact(1));
    assert!(sigs[3].accepts(1));
    assert!(!sigs[3].accepts(0));
}

#[test]
fn string_ref_identity() {
    let a = StringRef::from_str("x");
    let b = a.clone();
    let c = StringRef::from_str("x");
    assert!(a.ptr_eq(&b));
    assert!(!a.ptr_eq(&c));
    assert_eq!(a.as_str(), c.as_str());
}

#[test]
fn string_ref_from_string() {
    let r = StringRef::from("abc".to_string());
    assert_eq!(r.as_str(), "abc");
    assert_eq!(r.len(), 3);
    let e = StringRef::from(String::new());
    assert!(e.is_empty());
    assert_eq!(e.len(), 0);
}
