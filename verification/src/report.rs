//! The lines that a listing of tokens prints.

use crate::error::LexError;
use crate::text::{no_lines, push_line};
use crate::token::{Token, TokenView};
use vstd::prelude::*;
use vstd::string::*;

verus! {

/// The line that ends every listing of tokens.
pub open spec fn eof_line() -> Seq<char> {
    "EOF  null"@
}

/// The value given for the token at `i`, or the empty text where `values`
/// holds none.
pub open spec fn value_at(values: Seq<Seq<char>>, i: int) -> Seq<char> {
    if 0 <= i < values.len() {
        values[i]
    } else {
        Seq::empty()
    }
}

/// The listing of `tokens`: the line of each token, in order, and the line
/// that ends the listing. The number at `i` is printed with `values[i]` as
/// its value.
pub open spec fn listing(tokens: Seq<TokenView>, values: Seq<Seq<char>>) -> Seq<Seq<char>> {
    Seq::new(tokens.len(), |i: int| tokens[i].line(value_at(values, i))).push(eof_line())
}

/// The lines of the errors `errors`, in order.
pub open spec fn error_listing(errors: Seq<LexError>) -> Seq<Seq<char>> {
    Seq::new(errors.len(), |i: int| errors[i].message_text())
}

/// The lines of a listing of `tokens`: one for each token, then `EOF  null`.
/// `values` runs beside `tokens`: where `tokens[i]` is a number, `values[i]`
/// is its value in canonical form, and it becomes the third field of that
/// line. The other entries are not read. A number for which `values` has no
/// entry gets an empty third field.
pub fn token_lines(tokens: &Vec<Token>, values: &Vec<String>) -> (lines: Vec<String>)
    ensures
        lines.deep_view() == listing(tokens.deep_view(), values.deep_view()),
        lines.len() == tokens.len() + 1,
        lines.deep_view().last() == eof_line(),
{
    let mut lines = no_lines();
    let mut i: usize = 0;
    while i < tokens.len()
        invariant
            i <= tokens.len(),
            lines.len() == i,
            lines.deep_view() == Seq::new(
                i as nat,
                |k: int| tokens.deep_view()[k].line(value_at(values.deep_view(), k)),
            ),
        decreases tokens.len() - i,
    {
        let line = if i < values.len() {
            tokens[i].line(values[i].as_str())
        } else {
            proof {
                reveal_strlit("");
            }
            tokens[i].line("")
        };
        push_line(&mut lines, line);
        i += 1;
    }
    push_line(&mut lines, String::from_str("EOF  null"));
    lines
}

/// The lines of `errors` for the error stream, in order.
pub fn error_lines(errors: &Vec<LexError>) -> (lines: Vec<String>)
    ensures
        lines.deep_view() == error_listing(errors@),
{
    let mut lines = no_lines();
    let mut i: usize = 0;
    while i < errors.len()
        invariant
            i <= errors.len(),
            lines.deep_view() == Seq::new(i as nat, |k: int| errors@[k].message_text()),
        decreases errors.len() - i,
    {
        push_line(&mut lines, errors[i].message());
        i += 1;
    }
    lines
}

} // verus!
