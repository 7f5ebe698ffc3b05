//! Tokens and their printed form.

use crate::text::{to_uppercase, uppercase};
use vstd::prelude::*;
use vstd::string::*;

verus! {

/// A lexical token. A number keeps its lexeme as it was written, a string its
/// contents without the quotes, and a reserved word its text.
#[derive(Debug, PartialEq, Eq)]
pub enum Token {
    Number(String),
    Identifier(String),
    Equal,
    EqualEqual,
    Bang,
    BangEqual,
    Less,
    LessEqual,
    Greater,
    GreaterEqual,
    LeftParentheses,
    RightParentheses,
    LeftBrace,
    RightBrace,
    Star,
    Comma,
    Plus,
    Minus,
    SemiColumn,
    String(String),
    Slash,
    Dot,
    ReservedWord(String),
}

/// A token as a mathematical value: the same variants over sequences of
/// characters.
pub enum TokenView {
    Number(Seq<char>),
    Identifier(Seq<char>),
    Equal,
    EqualEqual,
    Bang,
    BangEqual,
    Less,
    LessEqual,
    Greater,
    GreaterEqual,
    LeftParentheses,
    RightParentheses,
    LeftBrace,
    RightBrace,
    Star,
    Comma,
    Plus,
    Minus,
    SemiColumn,
    String(Seq<char>),
    Slash,
    Dot,
    ReservedWord(Seq<char>),
}

impl View for Token {
    type V = TokenView;

    open spec fn view(&self) -> TokenView {
        match self {
            Token::Number(lexeme) => TokenView::Number(lexeme@),
            Token::Identifier(name) => TokenView::Identifier(name@),
            Token::Equal => TokenView::Equal,
            Token::EqualEqual => TokenView::EqualEqual,
            Token::Bang => TokenView::Bang,
            Token::BangEqual => TokenView::BangEqual,
            Token::Less => TokenView::Less,
            Token::LessEqual => TokenView::LessEqual,
            Token::Greater => TokenView::Greater,
            Token::GreaterEqual => TokenView::GreaterEqual,
            Token::LeftParentheses => TokenView::LeftParentheses,
            Token::RightParentheses => TokenView::RightParentheses,
            Token::LeftBrace => TokenView::LeftBrace,
            Token::RightBrace => TokenView::RightBrace,
            Token::Star => TokenView::Star,
            Token::Comma => TokenView::Comma,
            Token::Plus => TokenView::Plus,
            Token::Minus => TokenView::Minus,
            Token::SemiColumn => TokenView::SemiColumn,
            Token::String(contents) => TokenView::String(contents@),
            Token::Slash => TokenView::Slash,
            Token::Dot => TokenView::Dot,
            Token::ReservedWord(word) => TokenView::ReservedWord(word@),
        }
    }
}

impl Clone for Token {
    fn clone(&self) -> (copy: Token)
        ensures
            copy == *self,
    {
        match self {
            Token::Number(lexeme) => Token::Number(lexeme.clone()),
            Token::Identifier(name) => Token::Identifier(name.clone()),
            Token::Equal => Token::Equal,
            Token::EqualEqual => Token::EqualEqual,
            Token::Bang => Token::Bang,
            Token::BangEqual => Token::BangEqual,
            Token::Less => Token::Less,
            Token::LessEqual => Token::LessEqual,
            Token::Greater => Token::Greater,
            Token::GreaterEqual => Token::GreaterEqual,
            Token::LeftParentheses => Token::LeftParentheses,
            Token::RightParentheses => Token::RightParentheses,
            Token::LeftBrace => Token::LeftBrace,
            Token::RightBrace => Token::RightBrace,
            Token::Star => Token::Star,
            Token::Comma => Token::Comma,
            Token::Plus => Token::Plus,
            Token::Minus => Token::Minus,
            Token::SemiColumn => Token::SemiColumn,
            Token::String(contents) => Token::String(contents.clone()),
            Token::Slash => Token::Slash,
            Token::Dot => Token::Dot,
            Token::ReservedWord(word) => Token::ReservedWord(word.clone()),
        }
    }
}

impl DeepView for Token {
    type V = TokenView;

    open spec fn deep_view(&self) -> TokenView {
        self@
    }
}

impl TokenView {
    /// The first field of a token's line: the name of its kind. A reserved
    /// word is named by its own text in upper case.
    pub open spec fn kind_name(self) -> Seq<char> {
        match self {
            TokenView::Number(_) => "NUMBER"@,
            TokenView::Identifier(_) => "IDENTIFIER"@,
            TokenView::Equal => "EQUAL"@,
            TokenView::EqualEqual => "EQUAL_EQUAL"@,
            TokenView::Bang => "BANG"@,
            TokenView::BangEqual => "BANG_EQUAL"@,
            TokenView::Less => "LESS"@,
            TokenView::LessEqual => "LESS_EQUAL"@,
            TokenView::Greater => "GREATER"@,
            TokenView::GreaterEqual => "GREATER_EQUAL"@,
            TokenView::LeftParentheses => "LEFT_PAREN"@,
            TokenView::RightParentheses => "RIGHT_PAREN"@,
            TokenView::LeftBrace => "LEFT_BRACE"@,
            TokenView::RightBrace => "RIGHT_BRACE"@,
            TokenView::Star => "STAR"@,
            TokenView::Comma => "COMMA"@,
            TokenView::Plus => "PLUS"@,
            TokenView::Minus => "MINUS"@,
            TokenView::SemiColumn => "SEMICOLON"@,
            TokenView::String(_) => "STRING"@,
            TokenView::Slash => "SLASH"@,
            TokenView::Dot => "DOT"@,
            TokenView::ReservedWord(word) => uppercase(word),
        }
    }

    /// The second field: the characters of the source that made the token.
    pub open spec fn lexeme(self) -> Seq<char> {
        match self {
            TokenView::Number(lexeme) => lexeme,
            TokenView::Identifier(name) => name,
            TokenView::Equal => seq!['='],
            TokenView::EqualEqual => seq!['=', '='],
            TokenView::Bang => seq!['!'],
            TokenView::BangEqual => seq!['!', '='],
            TokenView::Less => seq!['<'],
            TokenView::LessEqual => seq!['<', '='],
            TokenView::Greater => seq!['>'],
            TokenView::GreaterEqual => seq!['>', '='],
            TokenView::LeftParentheses => seq!['('],
            TokenView::RightParentheses => seq![')'],
            TokenView::LeftBrace => seq!['{'],
            TokenView::RightBrace => seq!['}'],
            TokenView::Star => seq!['*'],
            TokenView::Comma => seq![','],
            TokenView::Plus => seq!['+'],
            TokenView::Minus => seq!['-'],
            TokenView::SemiColumn => seq![';'],
            TokenView::String(contents) => seq!['"'] + contents + seq!['"'],
            TokenView::Slash => seq!['/'],
            TokenView::Dot => seq!['.'],
            TokenView::ReservedWord(word) => word,
        }
    }

    /// The third field: the contents of a string, `value` for a number, and
    /// `null` otherwise. `value` is the number's value in canonical form.
    pub open spec fn literal(self, value: Seq<char>) -> Seq<char> {
        match self {
            TokenView::Number(_) => value,
            TokenView::String(contents) => contents,
            _ => "null"@,
        }
    }

    /// The token's line: kind, lexeme and literal, with one space between.
    pub open spec fn line(self, value: Seq<char>) -> Seq<char> {
        self.kind_name() + seq![' '] + self.lexeme() + seq![' '] + self.literal(value)
    }
}

/// The string that holds exactly `text`.
fn fixed(text: &str) -> (s: String)
    ensures
        s@ == text@,
{
    String::from_str(text)
}

impl Token {
    /// The name of the token's kind, as the first field of its line.
    pub fn kind_name(&self) -> (name: String)
        ensures
            name@ == self@.kind_name(),
    {
        match self {
            Token::Number(_) => fixed("NUMBER"),
            Token::Identifier(_) => fixed("IDENTIFIER"),
            Token::Equal => fixed("EQUAL"),
            Token::EqualEqual => fixed("EQUAL_EQUAL"),
            Token::Bang => fixed("BANG"),
            Token::BangEqual => fixed("BANG_EQUAL"),
            Token::Less => fixed("LESS"),
            Token::LessEqual => fixed("LESS_EQUAL"),
            Token::Greater => fixed("GREATER"),
            Token::GreaterEqual => fixed("GREATER_EQUAL"),
            Token::LeftParentheses => fixed("LEFT_PAREN"),
            Token::RightParentheses => fixed("RIGHT_PAREN"),
            Token::LeftBrace => fixed("LEFT_BRACE"),
            Token::RightBrace => fixed("RIGHT_BRACE"),
            Token::Star => fixed("STAR"),
            Token::Comma => fixed("COMMA"),
            Token::Plus => fixed("PLUS"),
            Token::Minus => fixed("MINUS"),
            Token::SemiColumn => fixed("SEMICOLON"),
            Token::String(_) => fixed("STRING"),
            Token::Slash => fixed("SLASH"),
            Token::Dot => fixed("DOT"),
            Token::ReservedWord(word) => to_uppercase(word.as_str()),
        }
    }

    /// The characters of the source that made the token.
    pub fn lexeme(&self) -> (text: String)
        ensures
            text@ == self@.lexeme(),
    {
        let mut text = String::new();
        match self {
            Token::Number(lexeme) => text.append(lexeme.as_str()),
            Token::Identifier(name) => text.append(name.as_str()),
            Token::Equal => text.push('='),
            Token::EqualEqual => {
                text.push('=');
                text.push('=');
            },
            Token::Bang => text.push('!'),
            Token::BangEqual => {
                text.push('!');
                text.push('=');
            },
            Token::Less => text.push('<'),
            Token::LessEqual => {
                text.push('<');
                text.push('=');
            },
            Token::Greater => text.push('>'),
            Token::GreaterEqual => {
                text.push('>');
                text.push('=');
            },
            Token::LeftParentheses => text.push('('),
            Token::RightParentheses => text.push(')'),
            Token::LeftBrace => text.push('{'),
            Token::RightBrace => text.push('}'),
            Token::Star => text.push('*'),
            Token::Comma => text.push(','),
            Token::Plus => text.push('+'),
            Token::Minus => text.push('-'),
            Token::SemiColumn => text.push(';'),
            Token::String(contents) => {
                text.push('"');
                text.append(contents.as_str());
                text.push('"');
            },
            Token::Slash => text.push('/'),
            Token::Dot => text.push('.'),
            Token::ReservedWord(word) => text.append(word.as_str()),
        }
        text
    }

    /// The token's line in a listing of tokens. `value` is used for a number
    /// only, as its third field: the caller gives the number's value there,
    /// in canonical form.
    pub fn line(&self, value: &str) -> (line: String)
        ensures
            line@ == self@.line(value@),
    {
        let mut line = self.kind_name();
        line.push(' ');
        let lexeme = self.lexeme();
        line.append(lexeme.as_str());
        line.push(' ');
        match self {
            Token::Number(_) => line.append(value),
            Token::String(contents) => line.append(contents.as_str()),
            _ => line.append("null"),
        }
        line
    }
}

} // verus!
