//! The scanner: a cursor over the characters of a source text that hands out
//! one token at a time and keeps the errors it meets.

use crate::chars::{
    digit, identifier_part, identifier_start, is_blacklisted, is_digit, is_identifier_start,
    whitespace,
};
use crate::error::{LexError, LexErrorKind};
use crate::grammar::{
    count_newlines, error_at, exit_code_for, in_class, is_operator, is_reserved,
    lemma_newlines_bound, lemma_newlines_miss, lemma_run, lemma_scan_bounds,
    lemma_scan_skips_whitespace, lemma_step_advances, lex, line_at, number_end, operator,
    punctuator, run_len, scan, string_close, word_end, CharClass, LexerState,
};
use crate::text::{decode, spells};
use crate::token::{Token, TokenView};
use vstd::prelude::*;

verus! {

/// The scanner's state: the decoded source, the cursor, and what it found.
pub struct Lexer {
    chars: Vec<char>,
    pos: usize,
    newlines: usize,
    exit_code: i32,
    errors: Vec<LexError>,
}

impl View for Lexer {
    type V = LexerState;

    closed spec fn view(&self) -> LexerState {
        LexerState { source: self.chars@, pos: self.pos as int, errors: self.errors@ }
    }
}

/// Whether `c` belongs to `class`.
fn belongs(class: CharClass, c: char) -> (b: bool)
    ensures
        b == in_class(class, c),
{
    match class {
        CharClass::Whitespace => whitespace(c),
        CharClass::Digit => digit(c),
        CharClass::IdentifierPart => identifier_part(c),
        CharClass::StringBody => c != '"',
        CharClass::CommentBody => c != '\n',
    }
}

impl Lexer {
    /// The count of newlines and the exit code that the scanner keeps are
    /// those of its cursor and of its errors.
    pub closed spec fn in_step(&self) -> bool {
        &&& self.newlines == count_newlines(self.chars@, self.pos as int)
        &&& self.exit_code == exit_code_for(self.errors@)
    }

    /// The cursor lies within the source, and the line and the exit code are
    /// up to date.
    pub open spec fn wf(&self) -> bool {
        &&& 0 <= self@.pos <= self@.source.len() <= usize::MAX
        &&& self.in_step()
    }

    /// A scanner at the beginning of `input`.
    pub fn new(input: &str) -> (lexer: Lexer)
        ensures
            lexer.wf(),
            lexer@ == (LexerState { source: input@, pos: 0, errors: Seq::empty() }),
    {
        Lexer { chars: decode(input), pos: 0, newlines: 0, exit_code: 0, errors: Vec::new() }
    }

    /// The character under the cursor, or `None` at the end of the source.
    pub fn current(&self) -> (c: Option<char>)
        requires
            self.wf(),
        ensures
            c == self@.current(),
    {
        if self.pos < self.chars.len() {
            Some(self.chars[self.pos])
        } else {
            None
        }
    }

    /// The line of the cursor, counted from 1: one more than the number of
    /// newlines consumed. A line that no `usize` holds is given as
    /// `usize::MAX`; only the end of a source of `usize::MAX` newlines is on
    /// such a line.
    pub fn line(&self) -> (line: usize)
        requires
            self.wf(),
        ensures
            line == if line_at(self@.source, self@.pos) <= usize::MAX {
                line_at(self@.source, self@.pos)
            } else {
                usize::MAX as nat
            },
    {
        if self.newlines < usize::MAX {
            self.newlines + 1
        } else {
            usize::MAX
        }
    }

    /// 65 if an error was detected so far, else 0.
    pub fn exit_code(&self) -> (code: i32)
        requires
            self.wf(),
        ensures
            code == exit_code_for(self@.errors),
    {
        self.exit_code
    }

    /// The errors detected so far, in the order of the source.
    pub fn errors(&self) -> (errors: &Vec<LexError>)
        ensures
            errors@ == self@.errors,
    {
        &self.errors
    }

    /// Consumes the character under the cursor. At the end of the source
    /// nothing changes.
    pub fn read_char(&mut self)
        requires
            old(self).wf(),
        ensures
            final(self).wf(),
            final(self)@ == old(self)@.at(
                if old(self)@.pos < old(self)@.source.len() {
                    old(self)@.pos + 1
                } else {
                    old(self)@.pos
                },
            ),
    {
        if self.pos < self.chars.len() {
            proof {
                lemma_newlines_bound(self.chars@, self.pos as int);
            }
            if self.chars[self.pos] == '\n' {
                self.newlines += 1;
            }
            self.pos += 1;
        }
    }

    /// Whether `word` is one of the reserved words.
    pub fn is_reserved_word(word: &str) -> (b: bool)
        ensures
            b == is_reserved(word@),
    {
        let chars = decode(word);
        spells(&chars, "and") || spells(&chars, "class") || spells(&chars, "else")
            || spells(&chars, "false") || spells(&chars, "for") || spells(&chars, "fun")
            || spells(&chars, "if") || spells(&chars, "nil") || spells(&chars, "or")
            || spells(&chars, "print") || spells(&chars, "return") || spells(
            &chars,
            "super",
        ) || spells(&chars, "this") || spells(&chars, "true") || spells(&chars, "var")
            || spells(&chars, "while")
    }

    /// Whether `c` is one of the characters that are reported as unexpected.
    pub fn is_blacklisted(c: char) -> (b: bool)
        ensures
            b == is_blacklisted(c),
    {
        c == '$' || c == '#' || c == '@' || c == '^' || c == '%'
    }

    /// Consumes the run of characters of `class` under the cursor.
    fn skip_run(&mut self, class: CharClass)
        requires
            old(self).wf(),
        ensures
            final(self).wf(),
            final(self)@ == old(self)@.at(
                old(self)@.pos + run_len(old(self)@.source, class, old(self)@.pos),
            ),
    {
        while self.pos < self.chars.len() && belongs(class, self.chars[self.pos])
            invariant
                self.wf(),
                self@ == old(self)@.at(self.pos as int),
                old(self).pos <= self.pos,
                self.pos + run_len(self.chars@, class, self.pos as int) == old(self).pos + run_len(
                    self.chars@,
                    class,
                    old(self).pos as int,
                ),
            decreases self.chars.len() - self.pos,
        {
            self.read_char();
        }
    }

    /// Consumes the run of characters of `class` under the cursor and appends
    /// them to `text`.
    fn read_run(&mut self, class: CharClass, text: &mut String)
        requires
            old(self).wf(),
        ensures
            final(self).wf(),
            final(self)@ == old(self)@.at(
                old(self)@.pos + run_len(old(self)@.source, class, old(self)@.pos),
            ),
            final(text)@ == old(text)@ + old(self)@.source.subrange(
                old(self)@.pos,
                final(self)@.pos,
            ),
    {
        while self.pos < self.chars.len() && belongs(class, self.chars[self.pos])
            invariant
                self.wf(),
                self@ == old(self)@.at(self.pos as int),
                old(self).pos <= self.pos,
                self.pos + run_len(self.chars@, class, self.pos as int) == old(self).pos + run_len(
                    self.chars@,
                    class,
                    old(self).pos as int,
                ),
                text@ == old(text)@ + self.chars@.subrange(old(self).pos as int, self.pos as int),
            decreases self.chars.len() - self.pos,
        {
            text.push(self.chars[self.pos]);
            self.read_char();
        }
    }

    /// Consumes the whitespace under the cursor.
    pub fn skip_whitespace(&mut self)
        requires
            old(self).wf(),
        ensures
            final(self).wf(),
            final(self)@ == old(self)@.at(
                old(self)@.pos + run_len(
                    old(self)@.source,
                    CharClass::Whitespace,
                    old(self)@.pos,
                ),
            ),
    {
        self.skip_run(CharClass::Whitespace);
    }

    /// Reads the number under the cursor: its digits and, where a point and a
    /// digit follow them, the point and the digits after it. The token keeps
    /// the number as it was written.
    pub fn read_number(&mut self) -> (token: Token)
        requires
            old(self).wf(),
            old(self)@.current() is Some,
            is_digit(old(self)@.current()->0),
        ensures
            final(self).wf(),
            final(self)@ == old(self)@.at(number_end(old(self)@.source, old(self)@.pos)),
            token@ == TokenView::Number(
                old(self)@.source.subrange(old(self)@.pos, final(self)@.pos),
            ),
    {
        let mut number = String::new();
        number.push(self.chars[self.pos]);
        self.read_char();
        self.read_run(CharClass::Digit, &mut number);
        proof {
            lemma_run(self.chars@, CharClass::Digit, old(self).pos + 1);
        }
        if self.pos < self.chars.len() && self.chars.len() - self.pos > 1 && self.chars[self.pos]
            == '.' && digit(self.chars[self.pos + 1]) {
            number.push('.');
            self.read_char();
            number.push(self.chars[self.pos]);
            self.read_char();
            self.read_run(CharClass::Digit, &mut number);
            proof {
                lemma_run(self.chars@, CharClass::Digit, number_end(self.chars@, old(self).pos as int));
            }
        }
        assert(number@ =~= self.chars@.subrange(old(self).pos as int, self.pos as int));
        Token::Number(number)
    }

    /// Reads the identifier under the cursor: its first character and the
    /// letters, digits and underscores after it. A reserved word comes back
    /// as such.
    pub fn read_identifier(&mut self) -> (token: Token)
        requires
            old(self).wf(),
            old(self)@.current() is Some,
            is_identifier_start(old(self)@.current()->0),
        ensures
            final(self).wf(),
            final(self)@ == old(self)@.at(word_end(old(self)@.source, old(self)@.pos)),
            ({
                let word = old(self)@.source.subrange(old(self)@.pos, final(self)@.pos);
                token@ == if is_reserved(word) {
                    TokenView::ReservedWord(word)
                } else {
                    TokenView::Identifier(word)
                }
            }),
    {
        let mut identifier = String::new();
        identifier.push(self.chars[self.pos]);
        self.read_char();
        self.read_run(CharClass::IdentifierPart, &mut identifier);
        proof {
            lemma_run(self.chars@, CharClass::IdentifierPart, old(self).pos + 1);
        }
        assert(identifier@ =~= self.chars@.subrange(old(self).pos as int, self.pos as int));
        if Self::is_reserved_word(identifier.as_str()) {
            Token::ReservedWord(identifier)
        } else {
            Token::Identifier(identifier)
        }
    }

    /// Reads the string that opens under the cursor. Where a quote closes it,
    /// the token holds what stands between the quotes. Where none does, the
    /// rest of the source is consumed and the error comes back, detected at
    /// the end of the source; it is not yet recorded.
    pub fn read_string(&mut self) -> (result: Result<Token, LexError>)
        requires
            old(self).wf(),
            old(self)@.current() == Some('"'),
        ensures
            final(self).wf(),
            ({
                let src = old(self)@.source;
                let close = string_close(src, old(self)@.pos);
                if close < src.len() {
                    &&& result matches Ok(token)
                    &&& token@ == TokenView::String(src.subrange(old(self)@.pos + 1, close))
                    &&& final(self)@ == old(self)@.at(close + 1)
                } else {
                    &&& result == Err::<Token, LexError>(
                        error_at(src, src.len() as int, LexErrorKind::UnterminatedString),
                    )
                    &&& final(self)@ == old(self)@.at(src.len() as int)
                }
            }),
    {
        let mut string = String::new();
        self.read_char();
        self.read_run(CharClass::StringBody, &mut string);
        proof {
            lemma_run(self.chars@, CharClass::StringBody, old(self).pos + 1);
        }
        if self.pos < self.chars.len() {
            self.read_char();
            Ok(Token::String(string))
        } else {
            proof {
                lemma_newlines_miss(self.chars@, self.pos as int, old(self).pos as int);
            }
            Err(
                LexError {
                    line: self.newlines + 1,
                    offset: self.pos,
                    kind: LexErrorKind::UnterminatedString,
                },
            )
        }
    }

    /// Records an error of kind `kind`, detected at the character under the
    /// cursor.
    fn report(&mut self, kind: LexErrorKind)
        requires
            old(self).wf(),
            old(self)@.current() is Some,
        ensures
            final(self).wf(),
            final(self)@ == (LexerState {
                errors: old(self)@.errors.push(error_at(old(self)@.source, old(self)@.pos, kind)),
                ..old(self)@
            }),
    {
        proof {
            lemma_newlines_bound(self.chars@, self.pos as int);
        }
        self.errors.push(LexError { line: self.newlines + 1, offset: self.pos, kind });
        self.exit_code = 65;
    }

    /// The next token, or `None` where the stream of tokens ends. Whitespace,
    /// comments and characters that make no token are consumed on the way; an
    /// unexpected character is recorded as an error and consumed. The stream
    /// ends at the end of the source; where that end lies inside a string,
    /// the unterminated string is recorded as an error.
    pub fn next_token(&mut self) -> (token: Option<Token>)
        requires
            old(self).wf(),
        ensures
            final(self).wf(),
            ({
                let next = scan(old(self)@.source, old(self)@.pos);
                &&& token.deep_view() == next.token
                &&& final(self)@ == (LexerState {
                    pos: next.end,
                    errors: old(self)@.errors + next.errors,
                    ..old(self)@
                })
            }),
    {
        let ghost src = self.chars@;
        let ghost goal = scan(src, self.pos as int);
        loop
            invariant
                self.wf(),
                src == old(self)@.source,
                self@.source == src,
                goal == scan(src, old(self)@.pos),
                goal.token == scan(src, self@.pos).token,
                goal.end == scan(src, self@.pos).end,
                old(self)@.errors + goal.errors == self@.errors + scan(src, self@.pos).errors,
            decreases src.len() - self@.pos,
        {
            proof {
                lemma_scan_skips_whitespace(src, self.pos as int);
                lemma_run(src, CharClass::Whitespace, self.pos as int);
            }
            self.skip_whitespace();
            let ghost here = self.pos as int;
            let c = match self.current() {
                None => {
                    return None;
                },
                Some(c) => c,
            };
            proof {
                lemma_step_advances(src, here);
            }
            if Self::is_blacklisted(c) {
                self.report(LexErrorKind::UnexpectedCharacter(c));
                self.read_char();
            } else if digit(c) {
                return Some(self.read_number());
            } else if identifier_start(c) {
                return Some(self.read_identifier());
            } else if c == '"' {
                match self.read_string() {
                    Ok(token) => {
                        return Some(token);
                    },
                    Err(error) => {
                        self.errors.push(error);
                        self.exit_code = 65;
                        assert(old(self)@.errors + goal.errors =~= self@.errors);
                        return None;
                    },
                }
            } else if c == '=' || c == '!' || c == '<' || c == '>' {
                self.read_char();
                let paired = self.current_is('=');
                if paired {
                    self.read_char();
                }
                return Some(operator_token(c, paired));
            } else if c == '/' {
                self.read_char();
                if self.current_is('/') {
                    self.read_char();
                    self.skip_run(CharClass::CommentBody);
                    proof {
                        lemma_run(src, CharClass::CommentBody, here + 2);
                    }
                    self.read_char();
                } else {
                    return Some(Token::Slash);
                }
            } else {
                self.read_char();
                match punctuator_token(c) {
                    Some(token) => {
                        return Some(token);
                    },
                    None => {},
                }
            }
        }
    }

    /// All the tokens that are left, in order. The scanner is then at the end
    /// of its source and holds every error detected on the way.
    pub fn collect(&mut self) -> (tokens: Vec<Token>)
        requires
            old(self).wf(),
        ensures
            final(self).wf(),
            tokens.deep_view() == lex(old(self)@.source, old(self)@.pos).tokens,
            final(self)@ == (LexerState {
                pos: old(self)@.source.len() as int,
                errors: old(self)@.errors + lex(old(self)@.source, old(self)@.pos).errors,
                ..old(self)@
            }),
    {
        let ghost src = self.chars@;
        let ghost all = lex(src, self.pos as int);
        let mut tokens: Vec<Token> = Vec::new();
        loop
            invariant_except_break
                all.tokens == tokens.deep_view() + lex(src, self@.pos).tokens,
                old(self)@.errors + all.errors == self@.errors + lex(src, self@.pos).errors,
            invariant
                self.wf(),
                src == old(self)@.source,
                self@.source == src,
                all == lex(src, old(self)@.pos),
            ensures
                all.tokens == tokens.deep_view(),
                old(self)@.errors + all.errors == self@.errors,
                self@.pos == src.len(),
            decreases src.len() - self@.pos,
        {
            proof {
                lemma_scan_bounds(src, self.pos as int);
            }
            match self.next_token() {
                Some(token) => {
                    tokens.push(token);
                },
                None => {
                    break ;
                },
            }
        }
        tokens
    }

    /// Whether `c` is the character under the cursor.
    fn current_is(&self, c: char) -> (b: bool)
        requires
            self.wf(),
        ensures
            b == (self@.current() == Some(c)),
    {
        self.pos < self.chars.len() && self.chars[self.pos] == c
    }
}

/// The token of the operator `c`, alone or followed by `=`.
fn operator_token(c: char, paired: bool) -> (token: Token)
    requires
        is_operator(c),
    ensures
        token@ == operator(c, paired),
{
    if c == '=' {
        if paired {
            Token::EqualEqual
        } else {
            Token::Equal
        }
    } else if c == '!' {
        if paired {
            Token::BangEqual
        } else {
            Token::Bang
        }
    } else if c == '<' {
        if paired {
            Token::LessEqual
        } else {
            Token::Less
        }
    } else {
        if paired {
            Token::GreaterEqual
        } else {
            Token::Greater
        }
    }
}

/// The token that `c` makes by itself, if it makes one.
fn punctuator_token(c: char) -> (token: Option<Token>)
    ensures
        token.deep_view() == punctuator(c),
{
    if c == '(' {
        Some(Token::LeftParentheses)
    } else if c == ')' {
        Some(Token::RightParentheses)
    } else if c == '{' {
        Some(Token::LeftBrace)
    } else if c == '}' {
        Some(Token::RightBrace)
    } else if c == '*' {
        Some(Token::Star)
    } else if c == ',' {
        Some(Token::Comma)
    } else if c == '+' {
        Some(Token::Plus)
    } else if c == '-' {
        Some(Token::Minus)
    } else if c == ';' {
        Some(Token::SemiColumn)
    } else if c == '.' {
        Some(Token::Dot)
    } else {
        None
    }
}

/// What a source holds: its tokens, the errors detected in it, and the exit
/// code that goes with them.
pub struct Tokenized {
    pub tokens: Vec<Token>,
    pub errors: Vec<LexError>,
    pub exit_code: i32,
}

/// Scans the whole of `source`.
pub fn tokenize(source: &str) -> (out: Tokenized)
    ensures
        out.tokens.deep_view() == lex(source@, 0).tokens,
        out.errors@ == lex(source@, 0).errors,
        out.exit_code == exit_code_for(out.errors@),
{
    let mut lexer = Lexer::new(source);
    let tokens = lexer.collect();
    Tokenized { tokens, errors: lexer.errors, exit_code: lexer.exit_code }
}

} // verus!
