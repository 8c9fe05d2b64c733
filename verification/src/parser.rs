//! The parser of annotated programs: a recursive-descent parser over the
//! characters of the text, with ordered choice and backtracking.
//!
//! `terms` and `statements` state the grammar as functions on the
//! characters; `term_parsers` and `statement_parsers` run it and are proved
//! to follow it. `math`, `boolean` and `astp` offer each rule on a whole
//! text: the text left over and what was read, or a `ParseError`.
pub mod lexical;
pub mod terms;
pub mod term_parsers;
pub mod statements;
pub mod statement_parsers;
pub mod math;
pub mod boolean;
pub mod astp;

use vstd::prelude::*;
use crate::ast::Program;

verus! {

/// A rule of the grammar does not match the start of the text.
#[derive(Clone, Copy, Debug, PartialEq, Eq)]
pub struct ParseError;

/// What a parser of a whole text answers: where the rule reads `v` up to
/// position `j` of `s`, the text from `j` on and the value read; where the
/// rule does not match, an error.
pub open spec fn answers<'a, T: View>(
    r: Result<(&'a str, T), ParseError>,
    s: Seq<char>,
    want: Option<(int, T::V)>,
) -> bool {
    match r {
        Ok((rest, t)) => match want {
            Some((j, v)) => t@ == v && rest@ == s.subrange(j, s.len() as int),
            None => false,
        },
        Err(_) => want is None,
    }
}

/// A program: one function or more.
pub fn program(input: &str) -> (r: Result<(&str, Program), ParseError>)
    ensures
        answers(r, input@, crate::parser::statements::program(input@, 0)),
{
    astp::program(input)
}

} // verus!
