use arbores::evaluator::environment::Environment;
use std::rc::Rc;

#[test]
fn define_then_lookup() {
    let env: Environment<i64> = Environment::new();
    assert_eq!(env.lookup("x"), None);
    let env2 = env.define("x".to_string(), 42);
    assert_eq!(env2.lookup("x"), Some(42));
    // the environment defined from is left as it was
    assert_eq!(env.lookup("x"), None);
    let env3 = env2.define("x".to_string(), 7);
    assert_eq!(env3.lookup("x"), Some(7));
    assert_eq!(env2.lookup("x"), Some(42));
}

#[test]
fn child_sees_parent_and_shadows() {
    let root = Environment::new().define("x".to_string(), 1i64).define("y".to_string(), 2);
    let parent = Rc::new(root);
    let child = Environment::with_parent(parent.clone());
    assert_eq!(child.lookup("x"), Some(1));
    assert_eq!(child.lookup("y"), Some(2));
    assert_eq!(child.lookup("z"), None);
    let child = child.define("x".to_string(), 10);
    assert_eq!(child.lookup("x"), Some(10));
    assert_eq!(child.lookup("y"), Some(2));
    assert_eq!(parent.lookup("x"), Some(1));
}

#[test]
fn set_rebinds_where_bound() {
    let root = Rc::new(Environment::new().define("x".to_string(), 1i64));
    let child = Environment::with_parent(root.clone()).define("y".to_string(), 2);
    let updated = child.set("x", 5).unwrap();
    assert_eq!(updated.lookup("x"), Some(5));
    assert_eq!(updated.lookup("y"), Some(2));
    // the old chain is untouched
    assert_eq!(child.lookup("x"), Some(1));
    assert_eq!(root.lookup("x"), Some(1));
    let updated = updated.set("y", 3).unwrap();
    assert_eq!(updated.lookup("y"), Some(3));
    assert_eq!(updated.lookup("x"), Some(5));
}

#[test]
fn set_of_undefined_variable_fails() {
    let env = Environment::with_parent(Rc::new(Environment::new().define("a".to_string(), 0i64)));
    match env.set("missing", 1) {
        Err(m) => assert_eq!(m, "Undefined variable: missing"),
        Ok(_) => panic!("expected an error"),
    }
}
