//! What can go wrong while scanning and parsing.

use crate::text::{decimal, push_decimal};
use vstd::prelude::*;
use vstd::string::*;

verus! {

/// How an operation on a source text failed.
#[derive(Debug, Clone, Copy, PartialEq, Eq, Structural)]
pub enum ErrorType {
    /// The tokens are not a program: an expression was expected and none
    /// began, or a parenthesis was not closed.
    ParseError,
    /// The source text could not be had.
    IoError,
}

/// The two lexical errors.
#[derive(Debug, Clone, Copy, PartialEq, Eq, Structural)]
pub enum LexErrorKind {
    /// A character that no token can contain.
    UnexpectedCharacter(char),
    /// The input ended inside a string literal.
    UnterminatedString,
}

/// A lexical error, with the place where it was detected: `offset` counts the
/// characters of the source before that place, `line` is its line, from 1.
#[derive(Debug, Clone, Copy, PartialEq, Eq, Structural)]
pub struct LexError {
    pub line: usize,
    pub offset: usize,
    pub kind: LexErrorKind,
}

impl LexError {
    /// The error's line on the error stream.
    pub open spec fn message_text(self) -> Seq<char> {
        "[line "@ + decimal(self.line as nat) + "] Error: "@ + match self.kind {
            LexErrorKind::UnexpectedCharacter(c) => "Unexpected character: "@.push(c),
            LexErrorKind::UnterminatedString => "Unterminated string."@,
        }
    }

    /// The error's line on the error stream: `[line N] Error: ` and what was
    /// found.
    pub fn message(&self) -> (text: String)
        ensures
            text@ == self.message_text(),
    {
        let mut text = String::from_str("[line ");
        push_decimal(&mut text, self.line);
        text.append("] Error: ");
        match self.kind {
            LexErrorKind::UnexpectedCharacter(c) => {
                text.append("Unexpected character: ");
                text.push(c);
            },
            LexErrorKind::UnterminatedString => {
                text.append("Unterminated string.");
            },
        }
        text
    }
}

} // verus!
