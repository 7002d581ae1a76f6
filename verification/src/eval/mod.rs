//! The evaluator: values, built-in list functions and the evaluation machine.
pub mod value;
pub mod builtins;
pub mod machine;
