//! The front end of a small scripting language of the Lox family: a scanner
//! that turns a source text into tokens, and a parser that prints the
//! expressions of a program in parenthesised form.
//!
//! The grammar is written down twice. `grammar` and `syntax` state it as
//! functions on sequences of characters and tokens; `lexer` and `parser` are
//! the programs, proved to compute those functions. `lexer_laws` and
//! `parser_laws` hold what follows for every source text.
//!
//! Nothing here reads a file or writes to a stream: the scanner and the
//! parser keep their lines and errors, and `report` turns them into the lines
//! to print. The value of a number is left to the caller, who gives it in
//! canonical form where a line needs it.

pub mod chars;
pub mod error;
pub mod grammar;
pub mod lexer;
pub mod lexer_laws;
pub mod parser;
pub mod parser_laws;
pub mod report;
pub mod syntax;
pub mod text;
pub mod token;
