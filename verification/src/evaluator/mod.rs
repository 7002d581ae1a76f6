//! Types of the evaluator that stand on their own: argument counts of
//! built-in functions, tail-call contexts, and shared strings.
pub mod types;
pub mod errors;
pub mod environment;
