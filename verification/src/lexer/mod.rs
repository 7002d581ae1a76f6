pub mod types;
pub mod chars;
pub mod number;
pub mod rules;
pub mod machine;
pub mod engine;
pub mod coverage;
pub mod describe;
