//! The lexical grammar, as functions on a sequence of characters.
//!
//! `step` says what stands at one place of the source and where it ends,
//! `scan` what the next token is and which errors come before it, and `lex`
//! what the whole source holds.

use crate::chars::{is_blacklisted, is_digit, is_identifier_part, is_identifier_start, is_whitespace};
use crate::error::{LexError, LexErrorKind};
use crate::token::TokenView;
use vstd::prelude::*;

verus! {

/// The classes of characters of which the scanner reads runs.
#[derive(Debug, Clone, Copy, PartialEq, Eq, Structural)]
pub enum CharClass {
    Whitespace,
    Digit,
    IdentifierPart,
    /// Anything but the closing quote.
    StringBody,
    /// Anything but the newline that ends a comment.
    CommentBody,
}

/// Whether `c` belongs to `class`.
pub open spec fn in_class(class: CharClass, c: char) -> bool {
    match class {
        CharClass::Whitespace => is_whitespace(c),
        CharClass::Digit => is_digit(c),
        CharClass::IdentifierPart => is_identifier_part(c),
        CharClass::StringBody => c != '"',
        CharClass::CommentBody => c != '\n',
    }
}

/// The length of the longest run of characters of `class` that begins at
/// `pos`.
pub open spec fn run_len(src: Seq<char>, class: CharClass, pos: int) -> nat
    decreases src.len() - pos,
{
    if 0 <= pos < src.len() && in_class(class, src[pos]) {
        1 + run_len(src, class, pos + 1)
    } else {
        0
    }
}

/// The number of newlines among the first `pos` characters of `src`.
pub open spec fn count_newlines(src: Seq<char>, pos: int) -> nat
    decreases pos,
{
    if pos <= 0 {
        0
    } else {
        count_newlines(src, pos - 1) + if pos <= src.len() && src[pos - 1] == '\n' {
            1nat
        } else {
            0nat
        }
    }
}

/// The line, counted from 1, on which the character at `pos` stands.
pub open spec fn line_at(src: Seq<char>, pos: int) -> nat {
    1 + count_newlines(src, pos)
}

/// The reserved words.
pub open spec fn is_reserved(word: Seq<char>) -> bool {
    ||| word == "and"@
    ||| word == "class"@
    ||| word == "else"@
    ||| word == "false"@
    ||| word == "for"@
    ||| word == "fun"@
    ||| word == "if"@
    ||| word == "nil"@
    ||| word == "or"@
    ||| word == "print"@
    ||| word == "return"@
    ||| word == "super"@
    ||| word == "this"@
    ||| word == "true"@
    ||| word == "var"@
    ||| word == "while"@
}

/// The token that a character makes by itself, if it makes one.
pub open spec fn punctuator(c: char) -> Option<TokenView> {
    if c == '(' {
        Some(TokenView::LeftParentheses)
    } else if c == ')' {
        Some(TokenView::RightParentheses)
    } else if c == '{' {
        Some(TokenView::LeftBrace)
    } else if c == '}' {
        Some(TokenView::RightBrace)
    } else if c == '*' {
        Some(TokenView::Star)
    } else if c == ',' {
        Some(TokenView::Comma)
    } else if c == '+' {
        Some(TokenView::Plus)
    } else if c == '-' {
        Some(TokenView::Minus)
    } else if c == ';' {
        Some(TokenView::SemiColumn)
    } else if c == '.' {
        Some(TokenView::Dot)
    } else {
        None
    }
}

/// Whether `c` is one of the four operators that an `=` may follow.
pub open spec fn is_operator(c: char) -> bool {
    c == '=' || c == '!' || c == '<' || c == '>'
}

/// The token of the operator `c`, alone or followed by `=`.
pub open spec fn operator(c: char, paired: bool) -> TokenView
    recommends
        is_operator(c),
{
    if c == '=' {
        if paired {
            TokenView::EqualEqual
        } else {
            TokenView::Equal
        }
    } else if c == '!' {
        if paired {
            TokenView::BangEqual
        } else {
            TokenView::Bang
        }
    } else if c == '<' {
        if paired {
            TokenView::LessEqual
        } else {
            TokenView::Less
        }
    } else {
        if paired {
            TokenView::GreaterEqual
        } else {
            TokenView::Greater
        }
    }
}

/// Where the number that begins at `pos` ends: after its digits, and after a
/// point and more digits where a digit follows the point.
pub open spec fn number_end(src: Seq<char>, pos: int) -> int {
    let whole = pos + 1 + run_len(src, CharClass::Digit, pos + 1);
    if whole + 1 < src.len() && src[whole] == '.' && is_digit(src[whole + 1]) {
        whole + 2 + run_len(src, CharClass::Digit, whole + 2)
    } else {
        whole
    }
}

/// Where the identifier or reserved word that begins at `pos` ends.
pub open spec fn word_end(src: Seq<char>, pos: int) -> int {
    pos + 1 + run_len(src, CharClass::IdentifierPart, pos + 1)
}

/// The place of the quote that closes the string opened at `pos`, or the
/// length of `src` where none does.
pub open spec fn string_close(src: Seq<char>, pos: int) -> int {
    pos + 1 + run_len(src, CharClass::StringBody, pos + 1)
}

/// Where the comment that begins at `pos` ends: after the next newline, or at
/// the end of `src`.
pub open spec fn comment_end(src: Seq<char>, pos: int) -> int {
    let newline = pos + 2 + run_len(src, CharClass::CommentBody, pos + 2);
    if newline < src.len() {
        newline + 1
    } else {
        newline
    }
}

/// What stands at one place of the source.
pub enum Event {
    /// A token.
    Token(TokenView),
    /// Whitespace, a comment, or a character that is passed over in silence.
    Nothing,
    /// A character that is reported and passed over.
    Unexpected(char),
    /// A string that the input ends in.
    Unterminated,
}

/// What stands at one place of the source, and where it ends.
pub struct Step {
    pub event: Event,
    pub end: int,
}

/// What stands at `pos`, by the character there and at most two after it.
pub open spec fn step(src: Seq<char>, pos: int) -> Step
    recommends
        0 <= pos < src.len(),
{
    let c = src[pos];
    if is_whitespace(c) {
        Step { event: Event::Nothing, end: pos + 1 }
    } else if is_blacklisted(c) {
        Step { event: Event::Unexpected(c), end: pos + 1 }
    } else if is_digit(c) {
        let end = number_end(src, pos);
        Step { event: Event::Token(TokenView::Number(src.subrange(pos, end))), end }
    } else if is_identifier_start(c) {
        let end = word_end(src, pos);
        let word = src.subrange(pos, end);
        if is_reserved(word) {
            Step { event: Event::Token(TokenView::ReservedWord(word)), end }
        } else {
            Step { event: Event::Token(TokenView::Identifier(word)), end }
        }
    } else if c == '"' {
        let close = string_close(src, pos);
        if close < src.len() {
            Step {
                event: Event::Token(TokenView::String(src.subrange(pos + 1, close))),
                end: close + 1,
            }
        } else {
            Step { event: Event::Unterminated, end: close }
        }
    } else if is_operator(c) {
        if pos + 1 < src.len() && src[pos + 1] == '=' {
            Step { event: Event::Token(operator(c, true)), end: pos + 2 }
        } else {
            Step { event: Event::Token(operator(c, false)), end: pos + 1 }
        }
    } else if c == '/' {
        if pos + 1 < src.len() && src[pos + 1] == '/' {
            Step { event: Event::Nothing, end: comment_end(src, pos) }
        } else {
            Step { event: Event::Token(TokenView::Slash), end: pos + 1 }
        }
    } else {
        match punctuator(c) {
            Some(token) => Step { event: Event::Token(token), end: pos + 1 },
            None => Step { event: Event::Nothing, end: pos + 1 },
        }
    }
}

/// A run ends inside the source or at its end; every character of the run
/// is of the class, and the character after it, if there is one, is not.
pub proof fn lemma_run(src: Seq<char>, class: CharClass, pos: int)
    requires
        0 <= pos <= src.len(),
    ensures
        pos + run_len(src, class, pos) <= src.len(),
        forall|i: int| pos <= i < pos + run_len(src, class, pos) ==> in_class(class, #[trigger] src[i]),
        pos + run_len(src, class, pos) < src.len() ==> !in_class(
            class,
            src[pos + run_len(src, class, pos)],
        ),
    decreases src.len() - pos,
{
    if pos < src.len() && in_class(class, src[pos]) {
        lemma_run(src, class, pos + 1);
    }
}

/// A run is as long as the stretch of characters of the class that ends at
/// the end of the source or before a character of another class.
pub proof fn lemma_run_is(src: Seq<char>, class: CharClass, pos: int, end: int)
    requires
        0 <= pos <= end <= src.len(),
        forall|i: int| pos <= i < end ==> in_class(class, #[trigger] src[i]),
        end < src.len() ==> !in_class(class, src[end]),
    ensures
        pos + run_len(src, class, pos) == end,
    decreases end - pos,
{
    if pos < end {
        lemma_run_is(src, class, pos + 1, end);
    }
}

/// Every step passes over at least one character and ends within the source.
pub proof fn lemma_step_advances(src: Seq<char>, pos: int)
    requires
        0 <= pos < src.len(),
    ensures
        pos < step(src, pos).end <= src.len(),
{
    lemma_run(src, CharClass::Digit, pos + 1);
    let whole = pos + 1 + run_len(src, CharClass::Digit, pos + 1);
    if whole + 1 < src.len() {
        lemma_run(src, CharClass::Digit, whole + 2);
    }
    lemma_run(src, CharClass::IdentifierPart, pos + 1);
    lemma_run(src, CharClass::StringBody, pos + 1);
    if pos + 1 < src.len() {
        lemma_run(src, CharClass::CommentBody, pos + 2);
    }
}

/// The error of kind `kind` detected at `offset`.
pub open spec fn error_at(src: Seq<char>, offset: int, kind: LexErrorKind) -> LexError {
    LexError { line: line_at(src, offset) as usize, offset: offset as usize, kind }
}

#[via_fn]
proof fn scan_terminates(src: Seq<char>, pos: int) {
    if 0 <= pos < src.len() {
        lemma_step_advances(src, pos);
    }
}

/// The next token from some place on, with the errors met on the way to it.
pub struct Scan {
    /// The token, or `None` where the stream of tokens ends.
    pub token: Option<TokenView>,
    /// Where the token ends, or where the stream does.
    pub end: int,
    /// The errors detected before the token, in order.
    pub errors: Seq<LexError>,
}

/// The next token at or after `pos`. Whitespace, comments and characters that
/// make no token are passed over; an unexpected character is reported and
/// passed over; the stream ends at the end of `src`, and with an error where
/// that end lies inside a string.
pub open spec fn scan(src: Seq<char>, pos: int) -> Scan
    decreases src.len() - pos,
    via scan_terminates
{
    if 0 <= pos < src.len() {
        let here = step(src, pos);
        match here.event {
            Event::Token(token) => Scan { token: Some(token), end: here.end, errors: seq![] },
            Event::Nothing => scan(src, here.end),
            Event::Unexpected(c) => {
                let rest = scan(src, here.end);
                Scan {
                    token: rest.token,
                    end: rest.end,
                    errors: seq![error_at(src, pos, LexErrorKind::UnexpectedCharacter(c))]
                        + rest.errors,
                }
            },
            Event::Unterminated => Scan {
                token: None,
                end: here.end,
                errors: seq![error_at(src, here.end, LexErrorKind::UnterminatedString)],
            },
        }
    } else {
        Scan { token: None, end: pos, errors: seq![] }
    }
}

/// There are no more newlines among the first `pos` characters than there
/// are characters.
pub proof fn lemma_newlines_bound(src: Seq<char>, pos: int)
    requires
        0 <= pos,
    ensures
        count_newlines(src, pos) <= pos,
    decreases pos,
{
    if pos > 0 {
        lemma_newlines_bound(src, pos - 1);
    }
}

/// Where one of the first `pos` characters is no newline, there are fewer
/// newlines among them than characters.
pub proof fn lemma_newlines_miss(src: Seq<char>, pos: int, other: int)
    requires
        0 <= other < pos <= src.len(),
        src[other] != '\n',
    ensures
        count_newlines(src, pos) < pos,
    decreases pos,
{
    if other == pos - 1 {
        lemma_newlines_bound(src, pos - 1);
    } else {
        lemma_newlines_miss(src, pos - 1, other);
    }
}

/// The next token ends within the source. Where there is a token, it ends
/// after the place where the scan began; where there is none, the scan has
/// reached the end of the source.
pub proof fn lemma_scan_bounds(src: Seq<char>, pos: int)
    requires
        0 <= pos <= src.len(),
    ensures
        pos <= scan(src, pos).end <= src.len(),
        scan(src, pos).token is Some ==> pos < scan(src, pos).end,
        scan(src, pos).token is None ==> scan(src, pos).end == src.len(),
    decreases src.len() - pos,
{
    if pos < src.len() {
        lemma_step_advances(src, pos);
        let here = step(src, pos);
        match here.event {
            Event::Token(_) => {},
            Event::Nothing => {
                lemma_scan_bounds(src, here.end);
            },
            Event::Unexpected(_) => {
                lemma_scan_bounds(src, here.end);
            },
            Event::Unterminated => {
                lemma_run(src, CharClass::StringBody, pos + 1);
            },
        }
    }
}

/// A scan that begins in whitespace finds what a scan from the end of that
/// whitespace finds.
pub proof fn lemma_scan_skips_whitespace(src: Seq<char>, pos: int)
    requires
        0 <= pos <= src.len(),
    ensures
        scan(src, pos) == scan(src, pos + run_len(src, CharClass::Whitespace, pos)),
    decreases src.len() - pos,
{
    if pos < src.len() && is_whitespace(src[pos]) {
        lemma_scan_skips_whitespace(src, pos + 1);
    }
}

/// All the tokens and errors of a source, from some place on.
pub struct Lexed {
    pub tokens: Seq<TokenView>,
    pub errors: Seq<LexError>,
}

#[via_fn]
proof fn lex_terminates(src: Seq<char>, pos: int) {
    if 0 <= pos <= src.len() {
        lemma_scan_bounds(src, pos);
    }
}

/// The tokens at or after `pos`, and the errors detected there, each in the
/// order of the source: the tokens that `scan` finds one after the other,
/// until it finds none.
pub open spec fn lex(src: Seq<char>, pos: int) -> Lexed
    decreases src.len() - pos,
    via lex_terminates
{
    let next = scan(src, pos);
    match next.token {
        Some(token) => {
            let rest = lex(src, next.end);
            Lexed { tokens: seq![token] + rest.tokens, errors: next.errors + rest.errors }
        },
        None => Lexed { tokens: seq![], errors: next.errors },
    }
}

/// A scanner as a mathematical value. The line and the exit code follow from
/// these: the line from the cursor, the exit code from the errors.
pub struct LexerState {
    /// The characters of the source.
    pub source: Seq<char>,
    /// How many of them have been consumed.
    pub pos: int,
    /// The errors detected so far, in order.
    pub errors: Seq<LexError>,
}

impl LexerState {
    /// The character under the cursor, if the source has not ended.
    pub open spec fn current(self) -> Option<char> {
        if 0 <= self.pos < self.source.len() {
            Some(self.source[self.pos])
        } else {
            None
        }
    }

    /// This state with the cursor at `pos`.
    pub open spec fn at(self, pos: int) -> LexerState {
        LexerState { pos, ..self }
    }
}

/// The exit code that goes with a list of lexical errors: 65 where there is
/// one, else 0.
pub open spec fn exit_code_for(errors: Seq<LexError>) -> i32 {
    if errors.len() == 0 {
        0
    } else {
        65
    }
}

} // verus!
