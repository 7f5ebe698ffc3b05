//! What holds of the parse of every source text.

use crate::grammar::{exit_code_for, lex};
use crate::report::error_listing;
use crate::syntax::{
    advanced, begins_expression, budget, exit_code_of, expression, initial,
    lemma_advance_consumes, lemma_expression_consumes, lemma_program_is_quiet, printed_lines,
    program, spelled, Expr, ParserState,
};
use crate::token::TokenView;
use vstd::prelude::*;

verus! {

/// Where the exit code is 0, the error stream is empty: a listing of tokens
/// that ends with exit code 0 has no error line, and a parse that ends with
/// exit code 0 has neither an error of the scanner nor a message of the
/// parser.
pub proof fn law_clean_exit_is_silent(src: Seq<char>)
    ensures
        exit_code_for(lex(src, 0).errors) == 0 ==> error_listing(lex(src, 0).errors).len() == 0,
        ({
            let end = program(advanced(initial(src)));
            exit_code_of(end) == 0 ==> end.lexer.errors.len() == 0 && end.diagnostics.len() == 0
                && !end.failed
        }),
{
    lemma_program_is_quiet(advanced(initial(src)));
}

/// The tokens that `p` has not consumed: its lookahead and what its scanner
/// still holds.
pub open spec fn pending(p: ParserState) -> Seq<TokenView> {
    match p.current {
        Some(token) => seq![token] + lex(p.lexer.source, p.lexer.pos).tokens,
        None => Seq::empty(),
    }
}

/// To take a token removes the lookahead from the pending tokens.
pub proof fn lemma_advance_pending(p: ParserState)
    requires
        p.current is Some,
    ensures
        pending(advanced(p)) == pending(p).drop_first(),
{
}

/// An expression prints nothing by itself.
pub proof fn lemma_expression_keeps_output(p: ParserState)
    ensures
        expression(p).after.output == p.output,
    decreases budget(p),
{
    if !p.failed {
        lemma_advance_consumes(p);
        match p.current {
            Some(TokenView::LeftParentheses) => {
                lemma_expression_keeps_output(advanced(p));
            },
            Some(TokenView::Bang) => {
                lemma_expression_keeps_output(advanced(p));
            },
            _ => {},
        }
    }
}

/// The number of parentheses that are open after `token`, where `depth` were
/// open before it. A closing parenthesis that closes nothing is passed over.
pub open spec fn depth_after(token: TokenView, depth: nat) -> nat {
    match token {
        TokenView::LeftParentheses => depth + 1,
        TokenView::RightParentheses => if depth > 0 {
            (depth - 1) as nat
        } else {
            0
        },
        _ => depth,
    }
}

/// The number of constructs that begin at the top level of `tokens`: the
/// tokens with which an expression can begin that stand inside no
/// parentheses and directly after no `!`. `depth` is the number of
/// parentheses that are open before `tokens`, and `negated` says whether a
/// `!` stands directly before them.
pub open spec fn count_top_level(tokens: Seq<TokenView>, depth: nat, negated: bool) -> nat
    decreases tokens.len(),
{
    if tokens.len() == 0 {
        0
    } else {
        let here = if depth == 0 && !negated && begins_expression(tokens[0]) {
            1nat
        } else {
            0nat
        };
        here + count_top_level(
            tokens.drop_first(),
            depth_after(tokens[0], depth),
            tokens[0] == TokenView::Bang,
        )
    }
}

/// An expression that is printed is one construct: at the top level its
/// tokens hold one beginning of a construct, its first token, and below the
/// top level none. After it as many parentheses are open as before it.
pub proof fn lemma_expression_is_one_construct(p: ParserState, depth: nat, negated: bool)
    requires
        expression(p).text is Some,
    ensures
        count_top_level(pending(p), depth, negated) == count_top_level(
            pending(expression(p).after),
            depth,
            false,
        ) + if depth == 0 && !negated {
            1nat
        } else {
            0nat
        },
    decreases budget(p),
{
    lemma_advance_consumes(p);
    lemma_advance_pending(p);
    let next = advanced(p);
    match p.current {
        Some(TokenView::LeftParentheses) => {
            let inner = expression(next);
            lemma_expression_is_one_construct(next, depth + 1, false);
            lemma_advance_pending(inner.after);
        },
        Some(TokenView::Bang) => {
            lemma_expression_is_one_construct(next, depth, true);
        },
        _ => {},
    }
}

/// A program prints a line for each construct at the top level of its
/// pending tokens, until it fails.
pub proof fn lemma_program_counts_constructs(p: ParserState)
    ensures
        program(p).output.len() <= p.output.len() + count_top_level(pending(p), 0, false),
        !program(p).failed ==> program(p).output.len() == p.output.len() + count_top_level(
            pending(p),
            0,
            false,
        ),
    decreases budget(p),
{
    if !p.failed {
        lemma_advance_consumes(p);
        lemma_expression_consumes(p);
        match p.current {
            Some(token) => {
                if begins_expression(token) {
                    let parsed = expression(p);
                    lemma_expression_keeps_output(p);
                    if let Some(text) = parsed.text {
                        lemma_expression_is_one_construct(p, 0, false);
                        lemma_program_counts_constructs(
                            ParserState { output: parsed.after.output.push(text), ..parsed.after },
                        );
                    }
                } else {
                    lemma_advance_pending(p);
                    lemma_program_counts_constructs(advanced(p));
                }
            },
            None => {},
        }
    }
}

/// A parse prints no more lines than the source holds constructs at its top
/// level: tokens with which an expression can begin (a literal, a number, a
/// string, an opening parenthesis, a `!`) that stand inside no parentheses
/// and directly after no `!`. A parse that does not fail prints exactly one
/// line for each of them.
pub proof fn law_lines_are_top_level_constructs(src: Seq<char>)
    ensures
        program(advanced(initial(src))).output.len() <= count_top_level(
            lex(src, 0).tokens,
            0,
            false,
        ),
        !program(advanced(initial(src))).failed ==> program(advanced(initial(src))).output.len()
            == count_top_level(lex(src, 0).tokens, 0, false),
{
    lemma_program_counts_constructs(advanced(initial(src)));
}

/// An expression begins with a token with which an expression can begin.
pub proof fn lemma_expression_begins(expr: Expr)
    ensures
        expr.tokens().len() > 0,
        begins_expression(expr.tokens()[0]),
{
}

/// A parser that has the tokens of `expr` before it parses them as `expr`:
/// it returns the printed form of `expr` and is left before what followed
/// those tokens.
pub proof fn lemma_expression_is_recognised(p: ParserState, expr: Expr, rest: Seq<TokenView>)
    requires
        !p.failed,
        pending(p) == expr.tokens() + rest,
    ensures
        expression(p).text == Some(expr.printed()),
        pending(expression(p).after) == rest,
        expression(p).after.output == p.output,
        expression(p).after.diagnostics == p.diagnostics,
        !expression(p).after.failed,
    decreases expr,
{
    lemma_expression_begins(expr);
    assert(p.current == Some(pending(p)[0]));
    lemma_advance_pending(p);
    let next = advanced(p);
    match expr {
        Expr::Group(inner) => {
            let tail = seq![TokenView::RightParentheses] + rest;
            assert(pending(next) =~= inner.tokens() + tail);
            lemma_expression_is_recognised(next, *inner, tail);
            let after = expression(next).after;
            assert(after.current == Some(pending(after)[0]));
            lemma_advance_pending(after);
        },
        Expr::Not(inner) => {
            assert(pending(next) =~= inner.tokens() + rest);
            lemma_expression_is_recognised(next, *inner, rest);
        },
        _ => {},
    }
}

/// What the parser prints is the printed form of an expression, and the
/// tokens that it has consumed are the tokens that spell that expression.
pub proof fn lemma_expression_is_a_tree(p: ParserState) -> (expr: Expr)
    requires
        expression(p).text is Some,
    ensures
        expression(p).text == Some(expr.printed()),
        pending(p) == expr.tokens() + pending(expression(p).after),
    decreases budget(p),
{
    lemma_advance_consumes(p);
    lemma_advance_pending(p);
    let next = advanced(p);
    let expr = match p.current {
        Some(TokenView::ReservedWord(word)) => {
            if word == "true"@ {
                Expr::True
            } else if word == "false"@ {
                Expr::False
            } else {
                Expr::Nil
            }
        },
        Some(TokenView::Number(lexeme)) => Expr::Number(lexeme),
        Some(TokenView::String(contents)) => Expr::Text(contents),
        Some(TokenView::LeftParentheses) => {
            let inner = lemma_expression_is_a_tree(next);
            lemma_advance_pending(expression(next).after);
            Expr::Group(Box::new(inner))
        },
        _ => {
            let inner = lemma_expression_is_a_tree(next);
            Expr::Not(Box::new(inner))
        },
    };
    expr
}

/// Whether `line` is the printed form of an expression.
pub open spec fn is_printed(line: Seq<char>) -> bool {
    exists|expr: Expr| line == expr.printed()
}

/// A program adds only printed forms of expressions to the output.
pub proof fn lemma_program_prints_trees(p: ParserState)
    requires
        forall|i: int| 0 <= i < p.output.len() ==> is_printed(#[trigger] p.output[i]),
    ensures
        forall|i: int|
            0 <= i < program(p).output.len() ==> is_printed(#[trigger] program(p).output[i]),
    decreases budget(p),
{
    if !p.failed {
        lemma_advance_consumes(p);
        lemma_expression_consumes(p);
        match p.current {
            Some(token) => {
                if begins_expression(token) {
                    let parsed = expression(p);
                    lemma_expression_keeps_output(p);
                    if let Some(text) = parsed.text {
                        lemma_expression_is_a_tree(p);
                        lemma_program_prints_trees(
                            ParserState { output: parsed.after.output.push(text), ..parsed.after },
                        );
                    }
                } else {
                    lemma_program_prints_trees(advanced(p));
                }
            },
            None => {},
        }
    }
}

/// Every line that a parse prints is the printed form of an expression.
pub proof fn law_lines_are_expressions(src: Seq<char>)
    ensures
        forall|i: int|
            0 <= i < program(advanced(initial(src))).output.len() ==> is_printed(
                #[trigger] program(advanced(initial(src))).output[i],
            ),
{
    lemma_program_prints_trees(advanced(initial(src)));
}

/// A parser that has the tokens of `exprs` before it, and nothing after
/// them, prints each of the expressions on a line of its own and does not
/// fail.
pub proof fn lemma_program_prints_each(p: ParserState, exprs: Seq<Expr>)
    requires
        !p.failed,
        pending(p) == spelled(exprs),
    ensures
        program(p).output == p.output + printed_lines(exprs),
        program(p).diagnostics == p.diagnostics,
        !program(p).failed,
    decreases exprs.len(),
{
    if exprs.len() > 0 {
        let first = exprs[0];
        let others = exprs.drop_first();
        lemma_expression_begins(first);
        lemma_expression_is_recognised(p, first, spelled(others));
        let parsed = expression(p);
        let next = ParserState { output: parsed.after.output.push(first.printed()), ..parsed.after };
        lemma_program_prints_each(next, others);
        assert(program(p).output =~= p.output + printed_lines(exprs)) by {
            assert forall|i: int| 0 <= i < exprs.len() implies #[trigger] (p.output + printed_lines(
                exprs,
            ))[p.output.len() + i] == (next.output + printed_lines(others))[p.output.len() + i] by {}
        }
    }
}

/// A source whose tokens spell a sequence of expressions is parsed without
/// error, and its output is the printed form of each of these expressions,
/// in order, one on a line: a literal as its word, a number as it is
/// written, a string as its contents, a grouping as `(group ` and the inner
/// expression and `)`, a negation as `(! ` and the inner expression and `)`.
pub proof fn law_expressions_are_printed(src: Seq<char>, exprs: Seq<Expr>)
    requires
        lex(src, 0).tokens == spelled(exprs),
    ensures
        program(advanced(initial(src))).output == printed_lines(exprs),
        program(advanced(initial(src))).diagnostics.len() == 0,
        !program(advanced(initial(src))).failed,
{
    lemma_program_prints_each(advanced(initial(src)), exprs);
}

} // verus!
