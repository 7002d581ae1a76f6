pub mod text;
pub mod lexer;
pub mod parser;
pub mod evaluator;
pub mod environment;
pub mod eval;
