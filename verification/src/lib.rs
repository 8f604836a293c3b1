//! Front end of a small programming language: a lexer that turns source text
//! into a stream of tokens, and a Pratt (operator-precedence) parser that
//! turns the token stream into an abstract syntax tree.
//!
//! Every public operation carries a contract that relates it to a purely
//! mathematical description of lexing and parsing over character sequences.

pub mod ast;
pub mod lexer;
pub mod parser;
pub mod token;
