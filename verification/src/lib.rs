//! A tree-walking interpreter for a small scripting language with
//! dynamic types: a scanner, a parser by recursive descent, and an
//! evaluator with lexical scopes, closures, and `return` and `break`
//! as signals.
//!
//! The library computes with no floating-point number and writes no
//! output. Numbers are carried as the numerals of the program text and
//! as bit patterns; whenever a program needs arithmetic, a comparison,
//! a number as text, a line of output or a function of the host, the
//! interpreter ends its step with a request, and the host hands the
//! answer to the next step.

pub mod ast;
pub mod environment;
pub mod error;
pub mod interpreter;
pub mod lox;
pub mod lox_callable;
pub mod lox_function;
pub mod operators;
pub mod parser;
pub mod purity;
pub mod scanner;
pub mod scopes;
pub mod semantics;
pub mod stmt;
pub mod task;
pub mod token;
pub mod value;
