//! A small query language over rows of named string columns.

pub mod eval;
pub mod grammar;
pub mod laws;
pub mod lexer;
pub mod parser;
pub mod row;
pub mod syntax;

pub use crate::querylanguage::eval::{covers, eval, perform_comparison};
pub use crate::querylanguage::grammar::State;
pub use crate::querylanguage::lexer::{tokenize, Lexed};
pub use crate::querylanguage::parser::{is_col, is_mod, parse_query, ParseError};
pub use crate::querylanguage::row::{TableRow, TableRows};
pub use crate::querylanguage::syntax::{Column, CompType, Comparison, Ident, ModType, Modifier};
