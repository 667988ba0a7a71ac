//! Front end of a small interpreted language: a lexical scanner and a
//! Pratt (operator-precedence) parser that turn source text into an
//! abstract syntax tree, collecting syntax errors instead of failing.
//!
//! Each executable function carries a contract that ties what it returns
//! to a specification-level lexer and parser over sequences of
//! characters and tokens; the laws module states and proves what the
//! pipeline as a whole guarantees.

pub mod ast;
pub mod laws;
pub mod lexer;
pub mod numbers;
pub mod parser;
pub mod token;
