//! Front end of a tree-walk interpreter for a small dynamically-typed
//! expression language: a lexical scanner with span tracking and
//! per-character error recovery, a recursive-descent expression parser
//! built on a shared left-associative precedence combinator, and a
//! visitor-based printer for the resulting syntax tree.

pub mod ast;
pub mod ast_printer;
pub mod lox;
pub mod parse_error;
pub mod parser;
pub mod scanner;
pub mod token;

use vstd::prelude::*;

verus! {

} // verus!
