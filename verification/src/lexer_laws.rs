//! What holds of the tokens and errors of every source text.

use crate::chars::{is_ascii_letter, is_blacklisted, is_digit, is_identifier_part};
use crate::error::{LexError, LexErrorKind};
use crate::grammar::{
    count_newlines, error_at, exit_code_for, is_reserved, lemma_newlines_bound,
    lemma_newlines_miss, lemma_run, lemma_run_is, lemma_scan_bounds, lemma_step_advances, lex,
    line_at, run_len, scan, step, CharClass, Event,
};
use crate::report::{eof_line, listing};
use crate::text::{decimal, numeral_value};
use crate::token::TokenView;
use vstd::prelude::*;

verus! {

/// The text of what stands at `pos`: for a token its lexeme, as the token
/// itself gives it; for an unexpected character that character; for anything
/// else the characters of the source that the step passes over.
pub open spec fn piece_text(src: Seq<char>, pos: int) -> Seq<char> {
    let here = step(src, pos);
    match here.event {
        Event::Token(token) => token.lexeme(),
        Event::Unexpected(c) => seq![c],
        Event::Nothing => src.subrange(pos, here.end),
        Event::Unterminated => src.subrange(pos, here.end),
    }
}

#[via_fn]
proof fn pieces_terminate(src: Seq<char>, pos: int) {
    if 0 <= pos < src.len() {
        lemma_step_advances(src, pos);
    }
}

/// The texts of all that stands at or after `pos`, one after the other.
pub open spec fn reassembled(src: Seq<char>, pos: int) -> Seq<char>
    decreases src.len() - pos,
    via pieces_terminate
{
    if 0 <= pos < src.len() {
        piece_text(src, pos) + reassembled(src, step(src, pos).end)
    } else {
        Seq::empty()
    }
}

#[via_fn]
proof fn piece_tokens_terminate(src: Seq<char>, pos: int) {
    if 0 <= pos < src.len() {
        lemma_step_advances(src, pos);
    }
}

/// The tokens among all that stands at or after `pos`, in order.
pub open spec fn piece_tokens(src: Seq<char>, pos: int) -> Seq<TokenView>
    decreases src.len() - pos,
    via piece_tokens_terminate
{
    if 0 <= pos < src.len() {
        let here = step(src, pos);
        match here.event {
            Event::Token(token) => seq![token] + piece_tokens(src, here.end),
            _ => piece_tokens(src, here.end),
        }
    } else {
        Seq::empty()
    }
}

/// The text of what stands at `pos` is the source from `pos` to the end of
/// the step: a token's lexeme is what the source holds there.
pub proof fn lemma_piece_is_source(src: Seq<char>, pos: int)
    requires
        0 <= pos < src.len(),
    ensures
        piece_text(src, pos) == src.subrange(pos, step(src, pos).end),
{
    lemma_step_advances(src, pos);
    lemma_run(src, CharClass::StringBody, pos + 1);
}

/// The pieces from `pos` on make up the source from `pos` on.
pub proof fn lemma_reassembled(src: Seq<char>, pos: int)
    requires
        0 <= pos <= src.len(),
    ensures
        reassembled(src, pos) == src.subrange(pos, src.len() as int),
    decreases src.len() - pos,
{
    if pos < src.len() {
        lemma_step_advances(src, pos);
        lemma_piece_is_source(src, pos);
        lemma_reassembled(src, step(src, pos).end);
    }
}

/// The tokens that the scanner hands out from `pos` on are the tokens among
/// the pieces from `pos` on.
pub proof fn lemma_tokens_are_pieces(src: Seq<char>, pos: int)
    requires
        0 <= pos <= src.len(),
    ensures
        lex(src, pos).tokens == piece_tokens(src, pos),
    decreases src.len() - pos,
{
    if pos < src.len() {
        lemma_step_advances(src, pos);
        lemma_scan_bounds(src, pos);
        let here = step(src, pos);
        match here.event {
            Event::Token(token) => {
                lemma_tokens_are_pieces(src, here.end);
            },
            Event::Unterminated => {
                lemma_run(src, CharClass::StringBody, pos + 1);
                assert(piece_tokens(src, here.end) =~= Seq::<TokenView>::empty());
            },
            _ => {
                lemma_tokens_are_pieces(src, here.end);
            },
        }
    }
}

/// Every character of a source belongs to exactly one piece: the lexemes of
/// its tokens, the unexpected characters and what lies between them (the
/// whitespace, the comments, the characters that make no token, a string
/// that the input ends in), put one after the other in the order of the
/// source, are the source. The tokens among these pieces are the tokens that
/// the scanner hands out.
pub proof fn law_source_is_covered_once(src: Seq<char>)
    ensures
        reassembled(src, 0) == src,
        lex(src, 0).tokens == piece_tokens(src, 0),
{
    lemma_reassembled(src, 0);
    lemma_tokens_are_pieces(src, 0);
}

/// An identifier or reserved word is the longest there is: it runs on as
/// long as letters, digits and underscores follow.
pub proof fn law_longest_word(src: Seq<char>, pos: int)
    requires
        0 <= pos < src.len(),
        step(src, pos).event is Token,
        step(src, pos).event->Token_0 is Identifier || step(src, pos).event->Token_0
            is ReservedWord,
    ensures
        forall|i: int| pos < i < step(src, pos).end ==> is_identifier_part(#[trigger] src[i]),
        step(src, pos).end < src.len() ==> !is_identifier_part(src[step(src, pos).end]),
{
    lemma_run(src, CharClass::IdentifierPart, pos + 1);
}

/// A number is the longest there is: its digits run on as long as digits
/// follow, and a point belongs to it exactly where digits stand on both
/// sides of the point. So no digit follows a number, and no point that a
/// digit follows.
pub proof fn law_longest_number(src: Seq<char>, pos: int)
    requires
        0 <= pos < src.len(),
        step(src, pos).event is Token,
        step(src, pos).event->Token_0 is Number,
    ensures
        ({
            let end = step(src, pos).end;
            &&& forall|i: int| pos <= i < end ==> is_digit(#[trigger] src[i]) || src[i] == '.'
            &&& is_digit(src[end - 1])
            &&& end < src.len() ==> !is_digit(src[end])
            &&& end + 1 < src.len() && src[end] == '.' && is_digit(src[end + 1]) ==> exists|i: int|
                pos < i < end && src[i] == '.'
        }),
{
    lemma_run(src, CharClass::Digit, pos + 1);
    let whole = pos + 1 + run_len(src, CharClass::Digit, pos + 1);
    if whole + 1 < src.len() {
        lemma_run(src, CharClass::Digit, whole + 2);
    }
}

/// Whether `error` is what the scanner reports at a place of `src`: its
/// offset lies in the source, its line is one more than the number of
/// newlines before that offset, an unexpected character is the character at
/// the offset, and an unterminated string is detected at the end.
pub open spec fn reported_in(src: Seq<char>, error: LexError) -> bool {
    &&& 0 <= error.offset <= src.len()
    &&& error.line == 1 + count_newlines(src, error.offset as int)
    &&& match error.kind {
        LexErrorKind::UnexpectedCharacter(c) => {
            &&& error.offset < src.len()
            &&& src[error.offset as int] == c
            &&& is_blacklisted(c)
        },
        LexErrorKind::UnterminatedString => error.offset == src.len(),
    }
}

/// An error made for a place of the source carries that place and its line,
/// if a `usize` holds that line.
pub proof fn lemma_error_at(src: Seq<char>, offset: int, kind: LexErrorKind)
    requires
        0 <= offset <= src.len() <= usize::MAX,
        count_newlines(src, offset) < usize::MAX,
    ensures
        error_at(src, offset, kind).offset == offset,
        error_at(src, offset, kind).line == 1 + count_newlines(src, offset),
        error_at(src, offset, kind).kind == kind,
{
}

/// The errors on the way to the next token are reported as `reported_in`
/// says.
pub proof fn lemma_scan_errors(src: Seq<char>, pos: int)
    requires
        src.len() <= usize::MAX,
        0 <= pos <= src.len(),
    ensures
        forall|i: int|
            0 <= i < scan(src, pos).errors.len() ==> reported_in(
                src,
                #[trigger] scan(src, pos).errors[i],
            ),
    decreases src.len() - pos,
{
    if pos < src.len() {
        lemma_step_advances(src, pos);
        let here = step(src, pos);
        match here.event {
            Event::Token(_) => {},
            Event::Nothing => {
                lemma_scan_errors(src, here.end);
            },
            Event::Unexpected(c) => {
                lemma_scan_errors(src, here.end);
                lemma_newlines_bound(src, pos);
                lemma_error_at(src, pos, LexErrorKind::UnexpectedCharacter(c));
                assert forall|i: int| 0 <= i < scan(src, pos).errors.len() implies reported_in(
                    src,
                    #[trigger] scan(src, pos).errors[i],
                ) by {}
            },
            Event::Unterminated => {
                lemma_run(src, CharClass::StringBody, pos + 1);
                lemma_newlines_miss(src, here.end, pos);
                lemma_error_at(src, here.end, LexErrorKind::UnterminatedString);
            },
        }
    }
}

/// The errors from `pos` on are reported as `reported_in` says.
pub proof fn lemma_lex_errors(src: Seq<char>, pos: int)
    requires
        src.len() <= usize::MAX,
        0 <= pos <= src.len(),
    ensures
        forall|i: int|
            0 <= i < lex(src, pos).errors.len() ==> reported_in(
                src,
                #[trigger] lex(src, pos).errors[i],
            ),
    decreases src.len() - pos,
{
    lemma_scan_bounds(src, pos);
    lemma_scan_errors(src, pos);
    let next = scan(src, pos);
    if next.token is Some {
        lemma_lex_errors(src, next.end);
        let rest = lex(src, next.end);
        assert forall|i: int| 0 <= i < lex(src, pos).errors.len() implies reported_in(
            src,
            #[trigger] lex(src, pos).errors[i],
        ) by {
            if i < next.errors.len() {
                assert(lex(src, pos).errors[i] == next.errors[i]);
            } else {
                assert(lex(src, pos).errors[i] == rest.errors[i - next.errors.len()]);
            }
        }
    }
}

/// The line of every error is one more than the number of newlines that
/// stand in the source before the place where the error was detected. An
/// unexpected character is detected where it stands, an unterminated string
/// at the end of the source.
pub proof fn law_error_lines(src: Seq<char>)
    requires
        src.len() <= usize::MAX,
    ensures
        forall|i: int|
            0 <= i < lex(src, 0).errors.len() ==> reported_in(
                src,
                #[trigger] lex(src, 0).errors[i],
            ),
{
    lemma_lex_errors(src, 0);
}

/// Lines only go up: a place further on in the source is on the same line or
/// on a later one.
pub proof fn law_lines_increase(src: Seq<char>, from: int, to: int)
    requires
        from <= to,
    ensures
        line_at(src, from) <= line_at(src, to),
    decreases to - from,
{
    if from < to {
        law_lines_increase(src, from, to - 1);
    }
}

/// The exit code is sticky: once it is 65, more errors leave it at 65. And it
/// is 0 only where no error was detected.
pub proof fn law_exit_code_is_sticky(before: Seq<LexError>, more: Seq<LexError>)
    ensures
        exit_code_for(before) == 65 ==> exit_code_for(before + more) == 65,
        exit_code_for(before) == 0 <==> before.len() == 0,
{
}

/// A source that is one token holds that token and nothing else.
proof fn lemma_single_token(src: Seq<char>, token: TokenView)
    requires
        scan(src, 0).token == Some(token),
        scan(src, 0).end == src.len(),
        scan(src, 0).errors == Seq::<LexError>::empty(),
    ensures
        lex(src, 0).tokens == seq![token],
        lex(src, 0).errors == Seq::<LexError>::empty(),
{
    let rest = lex(src, src.len() as int);
}

/// An identifier of ASCII letters, digits and underscores that does not
/// begin with a digit.
pub open spec fn is_plain_identifier(x: Seq<char>) -> bool {
    &&& x.len() > 0
    &&& (is_ascii_letter(x[0]) || x[0] == '_')
    &&& forall|i: int|
        0 <= i < x.len() ==> is_ascii_letter(#[trigger] x[i]) || is_digit(x[i]) || x[i] == '_'
}

/// A source that is one identifier of ASCII letters, digits and underscores,
/// and no reserved word, holds exactly that identifier and no error, and its
/// listing is the line `IDENTIFIER`, the identifier, `null`, and the line
/// that ends every listing.
pub proof fn law_identifier_alone(x: Seq<char>, values: Seq<Seq<char>>)
    requires
        is_plain_identifier(x),
        !is_reserved(x),
    ensures
        lex(x, 0).tokens == seq![TokenView::Identifier(x)],
        lex(x, 0).errors == Seq::<LexError>::empty(),
        listing(lex(x, 0).tokens, values) == seq!["IDENTIFIER "@ + x + " null"@, eof_line()],
{
    lemma_run_is(x, CharClass::IdentifierPart, 1, x.len() as int);
    assert(x.subrange(0, x.len() as int) =~= x);
    lemma_single_token(x, TokenView::Identifier(x));
    reveal_strlit("IDENTIFIER ");
    reveal_strlit("IDENTIFIER");
    reveal_strlit(" null");
    reveal_strlit("null");
    assert forall|value: Seq<char>|
        #[trigger] TokenView::Identifier(x).line(value) == "IDENTIFIER "@ + x + " null"@ by {}
}

/// A numeral: digits, or digits, a point and digits.
pub open spec fn is_numeral(text: Seq<char>) -> bool {
    ||| text.len() > 0 && forall|i: int| 0 <= i < text.len() ==> is_digit(#[trigger] text[i])
    ||| exists|point: int| has_point_at(text, point)
}

/// Whether `text` is digits, a point at `point` and digits.
pub open spec fn has_point_at(text: Seq<char>, point: int) -> bool {
    &&& 0 < point < text.len() - 1
    &&& text[point] == '.'
    &&& forall|i: int| 0 <= i < text.len() && i != point ==> is_digit(#[trigger] text[i])
}

/// A source that is one numeral holds exactly one number, which keeps the
/// numeral as it is written, and no error. The line of that number has the
/// numeral as its second field, and as its third the value that the caller
/// gives.
pub proof fn law_number_keeps_its_lexeme(text: Seq<char>, value: Seq<char>)
    requires
        is_numeral(text),
    ensures
        lex(text, 0).tokens == seq![TokenView::Number(text)],
        lex(text, 0).errors == Seq::<LexError>::empty(),
        TokenView::Number(text).line(value) == "NUMBER "@ + text + " "@ + value,
{
    let len = text.len() as int;
    if exists|point: int| has_point_at(text, point) {
        let point = choose|point: int| has_point_at(text, point);
        lemma_run_is(text, CharClass::Digit, 1, point);
        lemma_run_is(text, CharClass::Digit, point + 2, len);
    } else {
        lemma_run_is(text, CharClass::Digit, 1, len);
    }
    assert(text.subrange(0, len) =~= text);
    lemma_single_token(text, TokenView::Number(text));
    reveal_strlit("NUMBER ");
    reveal_strlit("NUMBER");
    reveal_strlit(" ");
}

/// The decimal numeral of a number reads back as that number: it is made
/// of digits, begins with `0` only where the number is 0, and stands for the
/// number. So the `N` of `[line N]` is the line in the usual notation.
pub proof fn law_decimal_reads_back(n: nat)
    ensures
        numeral_value(decimal(n)) == n,
        decimal(n).len() > 0,
        forall|i: int| 0 <= i < decimal(n).len() ==> is_digit(#[trigger] decimal(n)[i]),
        decimal(n)[0] == '0' <==> n == 0,
    decreases n,
{
    if n >= 10 {
        law_decimal_reads_back(n / 10);
        assert(decimal(n).drop_last() =~= decimal(n / 10));
    } else {
        assert(numeral_value(decimal(n).drop_last()) == 0);
    }
}

/// Each reserved word is named by its own text in capitals.
pub proof fn law_reserved_words_in_capitals()
    ensures
        TokenView::ReservedWord("and"@).kind_name() == "AND"@,
        TokenView::ReservedWord("class"@).kind_name() == "CLASS"@,
        TokenView::ReservedWord("else"@).kind_name() == "ELSE"@,
        TokenView::ReservedWord("false"@).kind_name() == "FALSE"@,
        TokenView::ReservedWord("for"@).kind_name() == "FOR"@,
        TokenView::ReservedWord("fun"@).kind_name() == "FUN"@,
        TokenView::ReservedWord("if"@).kind_name() == "IF"@,
        TokenView::ReservedWord("nil"@).kind_name() == "NIL"@,
        TokenView::ReservedWord("or"@).kind_name() == "OR"@,
        TokenView::ReservedWord("print"@).kind_name() == "PRINT"@,
        TokenView::ReservedWord("return"@).kind_name() == "RETURN"@,
        TokenView::ReservedWord("super"@).kind_name() == "SUPER"@,
        TokenView::ReservedWord("this"@).kind_name() == "THIS"@,
        TokenView::ReservedWord("true"@).kind_name() == "TRUE"@,
        TokenView::ReservedWord("var"@).kind_name() == "VAR"@,
        TokenView::ReservedWord("while"@).kind_name() == "WHILE"@,
{
    reveal_strlit("and");
    reveal_strlit("AND");
    reveal_strlit("class");
    reveal_strlit("CLASS");
    reveal_strlit("else");
    reveal_strlit("ELSE");
    reveal_strlit("false");
    reveal_strlit("FALSE");
    reveal_strlit("for");
    reveal_strlit("FOR");
    reveal_strlit("fun");
    reveal_strlit("FUN");
    reveal_strlit("if");
    reveal_strlit("IF");
    reveal_strlit("nil");
    reveal_strlit("NIL");
    reveal_strlit("or");
    reveal_strlit("OR");
    reveal_strlit("print");
    reveal_strlit("PRINT");
    reveal_strlit("return");
    reveal_strlit("RETURN");
    reveal_strlit("super");
    reveal_strlit("SUPER");
    reveal_strlit("this");
    reveal_strlit("THIS");
    reveal_strlit("true");
    reveal_strlit("TRUE");
    reveal_strlit("var");
    reveal_strlit("VAR");
    reveal_strlit("while");
    reveal_strlit("WHILE");
}

} // verus!
