//! A C preprocessor: tokenizer, expression parser and evaluator, and the
//! line-by-line directive machine.
pub mod arithmetic;
pub mod directives;
pub mod errors;
pub mod eval;
pub mod expression;
pub mod parser;
pub mod preprocessor;
pub mod reader;
pub mod structs;
pub mod ternary;
pub mod text;
pub mod tools;
