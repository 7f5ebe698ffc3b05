//! The parser: it takes tokens from a scanner one at a time, with one token
//! of lookahead, and keeps a printed line for each expression of the program.

use crate::error::ErrorType;
use crate::lexer::Lexer;
use crate::syntax::{
    advanced, begins_expression, budget, exit_code_of, expression, grouping, initial,
    is_literal_word, lemma_advance_consumes, lemma_expression_consumes, negation, program, quiet,
    ParserState,
};
use crate::text::{no_lines, push_line, same};
use crate::token::Token;
use vstd::prelude::*;
use vstd::string::*;

verus! {

/// The parser's state.
pub struct Parser {
    lexer: Lexer,
    current: Option<Token>,
    output: Vec<String>,
    diagnostics: Vec<String>,
    failed: bool,
}

impl View for Parser {
    type V = ParserState;

    closed spec fn view(&self) -> ParserState {
        ParserState {
            lexer: self.lexer@,
            current: self.current.deep_view(),
            output: self.output.deep_view(),
            diagnostics: self.diagnostics.deep_view(),
            failed: self.failed,
        }
    }
}

/// What a parse returns: an error exactly if the parser has failed.
pub open spec fn verdict(p: ParserState) -> Result<(), ErrorType> {
    if p.failed {
        Err(ErrorType::ParseError)
    } else {
        Ok(())
    }
}

/// Whether `word` is an expression by itself.
fn literal_word(word: &str) -> (b: bool)
    ensures
        b == is_literal_word(word@),
{
    same(word, "true") || same(word, "false") || same(word, "nil")
}

impl Parser {
    /// The scanner of the parser keeps its line and its exit code up to date.
    pub closed spec fn in_step(&self) -> bool {
        self.lexer.in_step()
    }

    /// The scanner of the parser is well formed, and the parser has said
    /// nothing unless it has failed.
    pub open spec fn wf(&self) -> bool {
        &&& 0 <= self@.lexer.pos <= self@.lexer.source.len() <= usize::MAX
        &&& self.in_step()
        &&& quiet(self@)
    }

    /// A parser at the beginning of `source`. It has no lookahead yet.
    pub fn new(source: &str) -> (parser: Parser)
        ensures
            parser.wf(),
            parser@ == initial(source@),
    {
        Parser {
            lexer: Lexer::new(source),
            current: None,
            output: no_lines(),
            diagnostics: no_lines(),
            failed: false,
        }
    }

    /// The printed expressions so far, one line each.
    pub fn output(&self) -> (lines: &Vec<String>)
        ensures
            lines.deep_view() == self@.output,
    {
        &self.output
    }

    /// The messages of the parser itself; those of its scanner are with the
    /// scanner.
    pub fn diagnostics(&self) -> (lines: &Vec<String>)
        ensures
            lines.deep_view() == self@.diagnostics,
    {
        &self.diagnostics
    }

    /// The scanner that the tokens come from.
    pub fn lexer(&self) -> (lexer: &Lexer)
        ensures
            lexer@ == self@.lexer,
            self.wf() ==> lexer.wf(),
    {
        &self.lexer
    }

    /// 65 where the parser has failed or its scanner has detected an error,
    /// else 0. Where it is 0, there is nothing for the error stream.
    pub fn exit_code(&self) -> (code: i32)
        requires
            self.wf(),
        ensures
            code == exit_code_of(self@),
            code == 0 ==> self@.lexer.errors.len() == 0 && self@.diagnostics.len() == 0,
    {
        if self.failed || self.lexer.exit_code() != 0 {
            65
        } else {
            0
        }
    }

    /// Takes the next token from the scanner as the lookahead.
    pub fn advance(&mut self) -> (result: Result<(), ErrorType>)
        requires
            old(self).wf(),
        ensures
            final(self).wf(),
            final(self)@ == advanced(old(self)@),
            result is Ok,
    {
        self.current = self.lexer.next_token();
        Ok(())
    }

    /// Parses the program from its first token on.
    pub fn parse(&mut self) -> (result: Result<(), ErrorType>)
        requires
            old(self).wf(),
        ensures
            final(self).wf(),
            final(self)@ == program(advanced(old(self)@)),
            result == verdict(final(self)@),
    {
        let _ = self.advance();
        self.parse_statements()
    }

    /// Whether an expression can begin with `token`.
    pub fn begins_expression(token: &Token) -> (b: bool)
        ensures
            b == begins_expression(token@),
    {
        match token {
            Token::ReservedWord(word) => literal_word(word.as_str()),
            Token::Number(_) => true,
            Token::String(_) => true,
            Token::LeftParentheses => true,
            Token::Bang => true,
            _ => false,
        }
    }

    /// Parses the program from the lookahead on: each expression adds a line
    /// to the output, a token that begins no expression is passed over, and
    /// the first parse error ends the parse.
    pub fn parse_statements(&mut self) -> (result: Result<(), ErrorType>)
        requires
            old(self).wf(),
        ensures
            final(self).wf(),
            final(self)@ == program(old(self)@),
            result == verdict(final(self)@),
    {
        loop
            invariant
                self.wf(),
                program(self@) == program(old(self)@),
            decreases budget(self@),
        {
            if self.failed {
                return Err(ErrorType::ParseError);
            }
            let begins = match &self.current {
                None => {
                    return Ok(());
                },
                Some(token) => Self::begins_expression(token),
            };
            proof {
                lemma_advance_consumes(self@);
                lemma_expression_consumes(self@);
            }
            if begins {
                match self.parse_expression() {
                    Ok(text) => {
                        push_line(&mut self.output, text);
                    },
                    Err(error) => {
                        return Err(error);
                    },
                }
            } else {
                let _ = self.advance();
            }
        }
    }

    /// Parses the expression that begins with the lookahead and returns its
    /// printed form.
    pub fn parse_expression(&mut self) -> (result: Result<String, ErrorType>)
        requires
            old(self).wf(),
        ensures
            final(self).wf(),
            final(self)@ == expression(old(self)@).after,
            match result {
                Ok(text) => expression(old(self)@).text == Some(text@),
                Err(error) => error == ErrorType::ParseError && expression(old(self)@).text is None,
            },
        decreases budget(old(self)@), 1nat,
    {
        if self.failed {
            return Err(ErrorType::ParseError);
        }
        match &self.current {
            Some(Token::ReservedWord(word)) => {
                if literal_word(word.as_str()) {
                    let text = word.clone();
                    let _ = self.advance();
                    Ok(text)
                } else {
                    self.failed = true;
                    Err(ErrorType::ParseError)
                }
            },
            Some(Token::Number(lexeme)) => {
                let text = lexeme.clone();
                let _ = self.advance();
                Ok(text)
            },
            Some(Token::String(contents)) => {
                let text = contents.clone();
                let _ = self.advance();
                Ok(text)
            },
            Some(Token::LeftParentheses) => self.parse_paranthesis(),
            Some(Token::Bang) => self.parse_negation(),
            _ => {
                self.failed = true;
                Err(ErrorType::ParseError)
            },
        }
    }

    /// Parses the grouping that begins with the lookahead: an opening
    /// parenthesis, an expression, a closing parenthesis.
    pub fn parse_paranthesis(&mut self) -> (result: Result<String, ErrorType>)
        requires
            old(self).wf(),
        ensures
            final(self).wf(),
            final(self)@ == grouping(old(self)@).after,
            match result {
                Ok(text) => grouping(old(self)@).text == Some(text@),
                Err(error) => error == ErrorType::ParseError && grouping(old(self)@).text is None,
            },
        decreases budget(old(self)@), 0nat,
    {
        let opens = match &self.current {
            Some(Token::LeftParentheses) => true,
            _ => false,
        };
        if self.failed || !opens {
            self.failed = true;
            return Err(ErrorType::ParseError);
        }
        proof {
            lemma_advance_consumes(self@);
        }
        let _ = self.advance();
        let inner = match self.parse_expression() {
            Ok(inner) => inner,
            Err(error) => {
                return Err(error);
            },
        };
        let closes = match &self.current {
            Some(Token::RightParentheses) => true,
            _ => false,
        };
        if closes {
            let _ = self.advance();
            let mut text = String::from_str("(group ");
            text.append(inner.as_str());
            text.append(")");
            Ok(text)
        } else {
            push_line(&mut self.diagnostics, String::from_str("Expected closing parenthesis"));
            self.failed = true;
            Err(ErrorType::ParseError)
        }
    }

    /// Parses the negation that begins with the lookahead: a `!` and an
    /// expression.
    pub fn parse_negation(&mut self) -> (result: Result<String, ErrorType>)
        requires
            old(self).wf(),
        ensures
            final(self).wf(),
            final(self)@ == negation(old(self)@).after,
            match result {
                Ok(text) => negation(old(self)@).text == Some(text@),
                Err(error) => error == ErrorType::ParseError && negation(old(self)@).text is None,
            },
        decreases budget(old(self)@), 0nat,
    {
        let negates = match &self.current {
            Some(Token::Bang) => true,
            _ => false,
        };
        if self.failed || !negates {
            self.failed = true;
            return Err(ErrorType::ParseError);
        }
        proof {
            lemma_advance_consumes(self@);
        }
        let _ = self.advance();
        match self.parse_expression() {
            Ok(inner) => {
                let mut text = String::from_str("(! ");
                text.append(inner.as_str());
                text.append(")");
                Ok(text)
            },
            Err(error) => Err(error),
        }
    }
}

} // verus!
