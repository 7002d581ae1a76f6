use arbores::environment::manager::{EnvError, EnvironmentManager};

#[derive(Clone, Debug, PartialEq)]
enum Value {
    Integer(i64),
    String(String),
}

#[test]
fn test_environment_basic() {
    let mut manager = EnvironmentManager::new();
    let env = manager.create_root_env();

    manager.define(env, "x".to_string(), Value::Integer(42)).unwrap();

    assert_eq!(manager.lookup(env, "x"), Ok(Value::Integer(42)));

    assert!(manager.lookup(env, "y").is_err());
}

#[test]
fn test_environment_parent() {
    let mut manager = EnvironmentManager::new();
    let parent = manager.create_root_env();
    manager.define(parent, "x".to_string(), Value::Integer(42)).unwrap();

    let child = manager.create_child_env(parent);
    manager.define(child, "y".to_string(), Value::String("hello".to_string())).unwrap();

    assert_eq!(manager.lookup(child, "x"), Ok(Value::Integer(42)));
    assert_eq!(manager.lookup(child, "y"), Ok(Value::String("hello".to_string())));
}

#[test]
fn test_environment_extend() {
    let mut manager = EnvironmentManager::new();
    let env = manager.create_root_env();

    let names = vec!["a".to_string(), "b".to_string()];
    let values = vec![Value::Integer(1), Value::Integer(2)];

    let extended = manager.extend(env, names, values).unwrap();

    assert_eq!(manager.lookup(extended, "a"), Ok(Value::Integer(1)));
    assert_eq!(manager.lookup(extended, "b"), Ok(Value::Integer(2)));
}

#[test]
fn test_environment_set() {
    let mut manager = EnvironmentManager::new();
    let env = manager.create_root_env();

    manager.define(env, "x".to_string(), Value::Integer(42)).unwrap();

    manager.set(env, "x", Value::Integer(100)).unwrap();
    assert_eq!(manager.lookup(env, "x"), Ok(Value::Integer(100)));

    assert!(manager.set(env, "y", Value::Integer(1)).is_err());
}

#[test]
fn test_environment_set_parent() {
    let mut manager = EnvironmentManager::new();
    let parent = manager.create_root_env();
    manager.define(parent, "x".to_string(), Value::Integer(42)).unwrap();

    let child = manager.create_child_env(parent);

    manager.set(child, "x", Value::Integer(100)).unwrap();
    assert_eq!(manager.lookup(child, "x"), Ok(Value::Integer(100)));
    assert_eq!(manager.lookup(parent, "x"), Ok(Value::Integer(100)));
}

#[test]
fn errors_name_the_missing_environment_or_variable() {
    let mut manager: EnvironmentManager<i64> = EnvironmentManager::default();
    assert_eq!(manager.define(3, "x".to_string(), 1), Err(EnvError::RuntimeError("Environment 3 not found".to_string())));
    let root = manager.create_root_env();
    assert_eq!(manager.lookup(root, "x"), Err(EnvError::UndefinedVariable("x".to_string())));
    let orphan = manager.create_child_env(7);
    assert_eq!(manager.lookup(orphan, "x"), Err(EnvError::RuntimeError("Environment 7 not found".to_string())));
    assert_eq!(manager.set(orphan, "x", 5), Err(EnvError::RuntimeError("Environment 7 not found".to_string())));
    assert_eq!(
        manager.extend(root, vec!["a".to_string()], vec![1, 2]),
        Err(EnvError::ArityError("Expected 1 arguments, got 2".to_string()))
    );
}

#[test]
fn shadowing_and_local_names() {
    let mut manager = EnvironmentManager::new();
    let root = manager.create_root_env();
    manager.define(root, "x".to_string(), 1).unwrap();
    manager.define(root, "y".to_string(), 2).unwrap();
    manager.define(root, "x".to_string(), 3).unwrap();
    let child = manager.extend(root, vec!["x".to_string(), "z".to_string(), "x".to_string()], vec![10, 20, 30]).unwrap();
    assert_eq!(manager.lookup(child, "x"), Ok(30));
    assert_eq!(manager.lookup(root, "x"), Ok(3));
    assert_eq!(manager.lookup(child, "y"), Ok(2));
    let mut names = manager.get_local_bindings(root);
    names.sort();
    assert_eq!(names, vec!["x".to_string(), "y".to_string()]);
    let mut names = manager.get_local_bindings(child);
    names.sort();
    assert_eq!(names, vec!["x".to_string(), "z".to_string()]);
    assert!(manager.get_local_bindings(99).is_empty());
    manager.set(child, "y", 5).unwrap();
    assert_eq!(manager.lookup(root, "y"), Ok(5));
}
