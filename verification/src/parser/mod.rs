pub mod error;
pub mod grammar;
pub mod parser;
