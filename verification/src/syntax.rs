//! The grammar of expressions, as functions on the state of a parser.
//!
//! ```text
//! program    ::= expression*
//! expression ::= primary | unary
//! unary      ::= "!" expression
//! primary    ::= "true" | "false" | "nil" | NUMBER | STRING | "(" expression ")"
//! ```

use crate::grammar::{lemma_scan_bounds, scan, LexerState};
use crate::token::TokenView;
use vstd::prelude::*;

verus! {

/// A parser as a mathematical value.
pub struct ParserState {
    /// The scanner that the tokens come from.
    pub lexer: LexerState,
    /// The lookahead: the token that the scanner gave last, `None` before the
    /// first and after the last.
    pub current: Option<TokenView>,
    /// The printed expressions, one line each.
    pub output: Seq<Seq<char>>,
    /// What the parser has to say of its failure.
    pub diagnostics: Seq<Seq<char>>,
    /// Whether a parse error was met. A parser that has failed parses no
    /// more.
    pub failed: bool,
}

/// The parser at the beginning of `source`, before the first token.
pub open spec fn initial(source: Seq<char>) -> ParserState {
    ParserState {
        lexer: LexerState { source, pos: 0, errors: Seq::empty() },
        current: None,
        output: Seq::empty(),
        diagnostics: Seq::empty(),
        failed: false,
    }
}

/// `p` after it has taken the next token from its scanner.
pub open spec fn advanced(p: ParserState) -> ParserState {
    let next = scan(p.lexer.source, p.lexer.pos);
    ParserState {
        lexer: LexerState { pos: next.end, errors: p.lexer.errors + next.errors, ..p.lexer },
        current: next.token,
        ..p
    }
}

/// A bound on what `p` can still consume: the characters that its scanner
/// has not consumed, and the lookahead.
pub open spec fn budget(p: ParserState) -> nat {
    let unread = if 0 <= p.lexer.pos <= p.lexer.source.len() {
        (p.lexer.source.len() - p.lexer.pos) as nat
    } else {
        0nat
    };
    match p.current {
        Some(_) => unread + 1,
        None => unread,
    }
}

/// To take a token never raises the budget, and lowers it where there was a
/// lookahead.
pub proof fn lemma_advance_consumes(p: ParserState)
    ensures
        budget(advanced(p)) <= budget(p),
        p.current is Some ==> budget(advanced(p)) < budget(p),
{
    if 0 <= p.lexer.pos <= p.lexer.source.len() {
        lemma_scan_bounds(p.lexer.source, p.lexer.pos);
    }
}

/// The reserved words that are expressions by themselves.
pub open spec fn is_literal_word(word: Seq<char>) -> bool {
    word == "true"@ || word == "false"@ || word == "nil"@
}

/// Whether an expression can begin with `token`.
pub open spec fn begins_expression(token: TokenView) -> bool {
    match token {
        TokenView::ReservedWord(word) => is_literal_word(word),
        TokenView::Number(_) => true,
        TokenView::String(_) => true,
        TokenView::LeftParentheses => true,
        TokenView::Bang => true,
        _ => false,
    }
}

/// What the message of a missing closing parenthesis says.
pub open spec fn missing_parenthesis() -> Seq<char> {
    "Expected closing parenthesis"@
}

/// The printed form of a grouping around the expression printed as `inner`.
pub open spec fn group_text(inner: Seq<char>) -> Seq<char> {
    "(group "@ + inner + ")"@
}

/// The printed form of the negation of the expression printed as `inner`.
pub open spec fn negation_text(inner: Seq<char>) -> Seq<char> {
    "(! "@ + inner + ")"@
}

/// The result of parsing one expression.
pub struct Parsed {
    /// The printed form of the expression, or `None` where there is a parse
    /// error.
    pub text: Option<Seq<char>>,
    /// The parser afterwards.
    pub after: ParserState,
}

/// The parse error at `p`: nothing is consumed.
pub open spec fn rejected(p: ParserState) -> Parsed {
    Parsed { text: None, after: ParserState { failed: true, ..p } }
}

#[via_fn]
proof fn grouping_terminates(p: ParserState) {
    lemma_advance_consumes(p);
}

#[via_fn]
proof fn negation_terminates(p: ParserState) {
    lemma_advance_consumes(p);
}

/// The expression that begins with the lookahead of `p`. A literal, a number
/// and a string print as they are written, a string without its quotes. The
/// end of the input and a token that begins no expression are parse errors.
pub open spec fn expression(p: ParserState) -> Parsed
    decreases budget(p), 1nat,
{
    if p.failed {
        rejected(p)
    } else {
        match p.current {
            Some(TokenView::ReservedWord(word)) => if is_literal_word(word) {
                Parsed { text: Some(word), after: advanced(p) }
            } else {
                rejected(p)
            },
            Some(TokenView::Number(lexeme)) => Parsed { text: Some(lexeme), after: advanced(p) },
            Some(TokenView::String(contents)) => Parsed {
                text: Some(contents),
                after: advanced(p),
            },
            Some(TokenView::LeftParentheses) => grouping(p),
            Some(TokenView::Bang) => negation(p),
            _ => rejected(p),
        }
    }
}

/// The grouping that begins with the lookahead of `p`: an opening
/// parenthesis, an expression and a closing parenthesis. Where the closing
/// parenthesis is missing, that is a parse error with a message.
pub open spec fn grouping(p: ParserState) -> Parsed
    decreases budget(p), 0nat,
    via grouping_terminates
{
    if !p.failed && p.current == Some(TokenView::LeftParentheses) {
        let inner = expression(advanced(p));
        match inner.text {
            Some(text) => if inner.after.current == Some(TokenView::RightParentheses) {
                Parsed { text: Some(group_text(text)), after: advanced(inner.after) }
            } else {
                Parsed {
                    text: None,
                    after: ParserState {
                        failed: true,
                        diagnostics: inner.after.diagnostics.push(missing_parenthesis()),
                        ..inner.after
                    },
                }
            },
            None => inner,
        }
    } else {
        rejected(p)
    }
}

/// The negation that begins with the lookahead of `p`: a `!` and an
/// expression.
pub open spec fn negation(p: ParserState) -> Parsed
    decreases budget(p), 0nat,
    via negation_terminates
{
    if !p.failed && p.current == Some(TokenView::Bang) {
        let inner = expression(advanced(p));
        match inner.text {
            Some(text) => Parsed { text: Some(negation_text(text)), after: inner.after },
            None => inner,
        }
    } else {
        rejected(p)
    }
}

/// An expression is printed exactly if the parser has not failed; it never
/// raises the budget, and lowers it where it is printed.
pub proof fn lemma_expression_consumes(p: ParserState)
    ensures
        expression(p).text is None <==> expression(p).after.failed,
        expression(p).after.lexer.source == p.lexer.source,
        budget(expression(p).after) <= budget(p),
        expression(p).text is Some ==> budget(expression(p).after) < budget(p),
    decreases budget(p),
{
    if !p.failed {
        lemma_advance_consumes(p);
        match p.current {
            Some(TokenView::LeftParentheses) => {
                lemma_expression_consumes(advanced(p));
                lemma_advance_consumes(expression(advanced(p)).after);
            },
            Some(TokenView::Bang) => {
                lemma_expression_consumes(advanced(p));
            },
            _ => {},
        }
    }
}

#[via_fn]
proof fn program_terminates(p: ParserState) {
    lemma_advance_consumes(p);
    lemma_expression_consumes(p);
}

/// The parser after the whole program: each expression is printed on a line
/// of its own, a token that begins no expression is passed over, and the
/// first parse error ends the parse.
pub open spec fn program(p: ParserState) -> ParserState
    decreases budget(p),
    via program_terminates
{
    if p.failed {
        p
    } else {
        match p.current {
            Some(token) => if begins_expression(token) {
                let parsed = expression(p);
                match parsed.text {
                    Some(text) => program(
                        ParserState { output: parsed.after.output.push(text), ..parsed.after },
                    ),
                    None => parsed.after,
                }
            } else {
                program(advanced(p))
            },
            None => p,
        }
    }
}

/// A parser says nothing unless it has failed.
pub open spec fn quiet(p: ParserState) -> bool {
    p.diagnostics.len() > 0 ==> p.failed
}

/// An expression leaves a quiet parser quiet.
pub proof fn lemma_expression_is_quiet(p: ParserState)
    requires
        quiet(p),
    ensures
        quiet(expression(p).after),
    decreases budget(p),
{
    if !p.failed {
        lemma_advance_consumes(p);
        match p.current {
            Some(TokenView::LeftParentheses) => {
                lemma_expression_is_quiet(advanced(p));
            },
            Some(TokenView::Bang) => {
                lemma_expression_is_quiet(advanced(p));
            },
            _ => {},
        }
    }
}

/// A program leaves a quiet parser quiet.
pub proof fn lemma_program_is_quiet(p: ParserState)
    requires
        quiet(p),
    ensures
        quiet(program(p)),
    decreases budget(p),
{
    if !p.failed {
        lemma_advance_consumes(p);
        lemma_expression_consumes(p);
        lemma_expression_is_quiet(p);
        match p.current {
            Some(token) => {
                if begins_expression(token) {
                    let parsed = expression(p);
                    if let Some(text) = parsed.text {
                        lemma_program_is_quiet(
                            ParserState { output: parsed.after.output.push(text), ..parsed.after },
                        );
                    }
                } else {
                    lemma_program_is_quiet(advanced(p));
                }
            },
            None => {},
        }
    }
}

/// The exit code that goes with `p`: 65 where the parser has failed or its
/// scanner has detected an error, else 0.
pub open spec fn exit_code_of(p: ParserState) -> i32 {
    if p.failed || p.lexer.errors.len() > 0 {
        65
    } else {
        0
    }
}

/// An expression as a tree.
pub enum Expr {
    True,
    False,
    Nil,
    /// A number, as it is written.
    Number(Seq<char>),
    /// A string, by its contents.
    Text(Seq<char>),
    /// An expression in parentheses.
    Group(Box<Expr>),
    /// A negated expression.
    Not(Box<Expr>),
}

impl Expr {
    /// The tokens that spell the expression.
    pub open spec fn tokens(self) -> Seq<TokenView>
        decreases self,
    {
        match self {
            Expr::True => seq![TokenView::ReservedWord("true"@)],
            Expr::False => seq![TokenView::ReservedWord("false"@)],
            Expr::Nil => seq![TokenView::ReservedWord("nil"@)],
            Expr::Number(lexeme) => seq![TokenView::Number(lexeme)],
            Expr::Text(contents) => seq![TokenView::String(contents)],
            Expr::Group(inner) => seq![TokenView::LeftParentheses] + inner.tokens()
                + seq![TokenView::RightParentheses],
            Expr::Not(inner) => seq![TokenView::Bang] + inner.tokens(),
        }
    }

    /// The printed form of the expression.
    pub open spec fn printed(self) -> Seq<char>
        decreases self,
    {
        match self {
            Expr::True => "true"@,
            Expr::False => "false"@,
            Expr::Nil => "nil"@,
            Expr::Number(lexeme) => lexeme,
            Expr::Text(contents) => contents,
            Expr::Group(inner) => group_text(inner.printed()),
            Expr::Not(inner) => negation_text(inner.printed()),
        }
    }
}

/// The tokens that spell the expressions `exprs`, one after the other.
pub open spec fn spelled(exprs: Seq<Expr>) -> Seq<TokenView>
    decreases exprs.len(),
{
    if exprs.len() == 0 {
        Seq::empty()
    } else {
        exprs[0].tokens() + spelled(exprs.drop_first())
    }
}

/// The printed forms of the expressions `exprs`, one line each.
pub open spec fn printed_lines(exprs: Seq<Expr>) -> Seq<Seq<char>> {
    Seq::new(exprs.len(), |i: int| exprs[i].printed())
}

} // verus!
