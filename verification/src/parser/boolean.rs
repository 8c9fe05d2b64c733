//! The rules of formulas, each on a whole text.
use vstd::prelude::*;
use crate::ast::{Bool, Value};
use crate::parser::{ParseError, answers};
use crate::parser::lexical::{Source, tag, tag_at};
use crate::parser::term_parsers::{
    bool_add_expr_right_at, bool_expr_at, bool_expr_val_at, bool_mult_expr_at,
    bool_mult_expr_right_at, factor_at, factor_compare_at, factor_compare_op_at, factor_id_at,
    factor_not_at, factor_paren_at, quantifier_at,
};
use crate::parser::terms;

verus! {

/// `&&` and the factor after it.
pub fn mult_expr_right(input: &str) -> (r: Result<(&str, Box<Bool>), ParseError>)
    ensures
        answers(r, input@, terms::bool_mult_expr_right(input@, 0)),
{
    let src = Source::new(input);
    match bool_mult_expr_right_at(&src, 0) {
        Some((j, b)) => Ok((src.rest(j), Box::new(b))),
        None => Err(ParseError),
    }
}

/// Factors joined by `&&`, grouped from the left.
pub fn mult_expr(input: &str) -> (r: Result<(&str, Box<Bool>), ParseError>)
    ensures
        answers(r, input@, terms::bool_mult_expr(input@, 0)),
{
    let src = Source::new(input);
    match bool_mult_expr_at(&src, 0) {
        Some((j, b)) => Ok((src.rest(j), Box::new(b))),
        None => Err(ParseError),
    }
}

/// `||` and the conjunction after it.
pub fn add_expr_right(input: &str) -> (r: Result<(&str, Box<Bool>), ParseError>)
    ensures
        answers(r, input@, terms::bool_add_expr_right(input@, 0)),
{
    let src = Source::new(input);
    match bool_add_expr_right_at(&src, 0) {
        Some((j, b)) => Ok((src.rest(j), Box::new(b))),
        None => Err(ParseError),
    }
}

/// A formula as a value.
pub fn expr_val(input: &str) -> (r: Result<(&str, Value), ParseError>)
    ensures
        answers(r, input@, terms::bool_expr_val(input@, 0)),
{
    let src = Source::new(input);
    match bool_expr_val_at(&src, 0) {
        Some((j, v)) => Ok((src.rest(j), v)),
        None => Err(ParseError),
    }
}

/// Conjunctions joined by `||`, grouped from the left.
pub fn expr(input: &str) -> (r: Result<(&str, Box<Bool>), ParseError>)
    ensures
        answers(r, input@, terms::bool_expr(input@, 0)),
{
    let src = Source::new(input);
    match bool_expr_at(&src, 0) {
        Some((j, b)) => Ok((src.rest(j), Box::new(b))),
        None => Err(ParseError),
    }
}

/// A quantified formula, a comparison, a constant or value, a negation or a
/// formula in brackets, tried in this order.
pub fn factor(input: &str) -> (r: Result<(&str, Box<Bool>), ParseError>)
    ensures
        answers(r, input@, terms::factor(input@, 0)),
{
    let src = Source::new(input);
    match factor_at(&src, 0) {
        Some((j, b)) => Ok((src.rest(j), Box::new(b))),
        None => Err(ParseError),
    }
}

/// `true`, `false`, or a value.
pub fn factor_id(input: &str) -> (r: Result<(&str, Box<Bool>), ParseError>)
    ensures
        answers(r, input@, terms::factor_id(input@, 0)),
{
    let src = Source::new(input);
    match factor_id_at(&src, 0) {
        Some((j, b)) => Ok((src.rest(j), Box::new(b))),
        None => Err(ParseError),
    }
}

/// `!` and a factor.
pub fn factor_not(input: &str) -> (r: Result<(&str, Box<Bool>), ParseError>)
    ensures
        answers(r, input@, terms::factor_not(input@, 0)),
{
    let src = Source::new(input);
    match factor_not_at(&src, 0) {
        Some((j, b)) => Ok((src.rest(j), Box::new(b))),
        None => Err(ParseError),
    }
}

/// Two arithmetic expressions compared by the first of
/// `== != >= > <= <` that matches.
pub fn factor_compare(input: &str) -> (r: Result<(&str, Box<Bool>), ParseError>)
    ensures
        answers(r, input@, terms::factor_compare(input@, 0, 0)),
{
    let src = Source::new(input);
    match factor_compare_at(&src, 0) {
        Some((j, b)) => Ok((src.rest(j), Box::new(b))),
        None => Err(ParseError),
    }
}

/// The comparison by the operator `k` of `== != >= > <= <`.
fn compare_with(input: &str, k: usize) -> (r: Result<(&str, Box<Bool>), ParseError>)
    requires
        k < 6,
    ensures
        answers(r, input@, terms::factor_compare_op(input@, 0, k as int)),
{
    let src = Source::new(input);
    match factor_compare_op_at(&src, 0, k) {
        Some((j, b)) => Ok((src.rest(j), Box::new(b))),
        None => Err(ParseError),
    }
}

/// `a == b`
pub fn factor_compare_equal(input: &str) -> (r: Result<(&str, Box<Bool>), ParseError>)
    ensures
        answers(r, input@, terms::factor_compare_op(input@, 0, 0)),
{
    compare_with(input, 0)
}

/// `a != b`, read as `!(a == b)`
pub fn factor_compare_not_equal(input: &str) -> (r: Result<(&str, Box<Bool>), ParseError>)
    ensures
        answers(r, input@, terms::factor_compare_op(input@, 0, 1)),
{
    compare_with(input, 1)
}

/// `a >= b`
pub fn factor_compare_greater_equal(input: &str) -> (r: Result<(&str, Box<Bool>), ParseError>)
    ensures
        answers(r, input@, terms::factor_compare_op(input@, 0, 2)),
{
    compare_with(input, 2)
}

/// `a > b`
pub fn factor_compare_greater(input: &str) -> (r: Result<(&str, Box<Bool>), ParseError>)
    ensures
        answers(r, input@, terms::factor_compare_op(input@, 0, 3)),
{
    compare_with(input, 3)
}

/// `a <= b`
pub fn factor_compare_smaller_equal(input: &str) -> (r: Result<(&str, Box<Bool>), ParseError>)
    ensures
        answers(r, input@, terms::factor_compare_op(input@, 0, 4)),
{
    compare_with(input, 4)
}

/// `a < b`
pub fn factor_compare_smaller(input: &str) -> (r: Result<(&str, Box<Bool>), ParseError>)
    ensures
        answers(r, input@, terms::factor_compare_op(input@, 0, 5)),
{
    compare_with(input, 5)
}

/// A formula in brackets, with blanks around.
pub fn factor_paren(input: &str) -> (r: Result<(&str, Box<Bool>), ParseError>)
    ensures
        answers(r, input@, terms::factor_paren(input@, 0)),
{
    let src = Source::new(input);
    match factor_paren_at(&src, 0) {
        Some((j, b)) => Ok((src.rest(j), Box::new(b))),
        None => Err(ParseError),
    }
}

/// The word `word` read as the constant `b`.
fn constant<'a>(input: &'a str, word: &str, b: bool) -> (r: Result<(&'a str, Box<Bool>), ParseError>)
    ensures
        answers(
            r,
            input@,
            match tag(input@, 0, word@) {
                Some(j) => Some((j, if b { crate::ast::SBool::True } else { crate::ast::SBool::False })),
                None => None,
            },
        ),
{
    let src = Source::new(input);
    match tag_at(&src, 0, word) {
        Some(j) => Ok((src.rest(j), Box::new(if b { Bool::True } else { Bool::False }))),
        None => Err(ParseError),
    }
}

/// `true`
pub fn _true(input: &str) -> (r: Result<(&str, Box<Bool>), ParseError>)
    ensures
        answers(
            r,
            input@,
            match tag(input@, 0, "true"@) {
                Some(j) => Some((j, crate::ast::SBool::True)),
                None => None,
            },
        ),
{
    constant(input, "true", true)
}

/// `false`
pub fn _false(input: &str) -> (r: Result<(&str, Box<Bool>), ParseError>)
    ensures
        answers(
            r,
            input@,
            match tag(input@, 0, "false"@) {
                Some(j) => Some((j, crate::ast::SBool::False)),
                None => None,
            },
        ),
{
    constant(input, "false", false)
}

/// The word `word` itself.
fn word_tag<'a>(input: &'a str, word: &str) -> (r: Result<(&'a str, &'a str), ParseError>)
    ensures
        answers(
            r,
            input@,
            match tag(input@, 0, word@) {
                Some(j) => Some((j, word@)),
                None => None,
            },
        ),
{
    let src = Source::new(input);
    match tag_at(&src, 0, word) {
        Some(j) => {
            let w = src.part(0, j);
            assert(w@ =~= word@);
            Ok((src.rest(j), w))
        },
        None => Err(ParseError),
    }
}

/// `&&`
pub fn and(input: &str) -> (r: Result<(&str, &str), ParseError>)
    ensures
        answers(
            r,
            input@,
            match tag(input@, 0, "&&"@) {
                Some(j) => Some((j, "&&"@)),
                None => None,
            },
        ),
{
    word_tag(input, "&&")
}

/// `||`
pub fn or(input: &str) -> (r: Result<(&str, &str), ParseError>)
    ensures
        answers(
            r,
            input@,
            match tag(input@, 0, "||"@) {
                Some(j) => Some((j, "||"@)),
                None => None,
            },
        ),
{
    word_tag(input, "||")
}

/// `!`
pub fn not(input: &str) -> (r: Result<(&str, &str), ParseError>)
    ensures
        answers(
            r,
            input@,
            match tag(input@, 0, "!"@) {
                Some(j) => Some((j, "!"@)),
                None => None,
            },
        ),
{
    word_tag(input, "!")
}

/// `forall name formula`
pub fn forall_expr(input: &str) -> (r: Result<(&str, Box<Bool>), ParseError>)
    ensures
        answers(r, input@, terms::quantifier(input@, 0, true)),
{
    let src = Source::new(input);
    match quantifier_at(&src, 0, true) {
        Some((j, b)) => Ok((src.rest(j), Box::new(b))),
        None => Err(ParseError),
    }
}

/// `exists name formula`
pub fn exists_expr(input: &str) -> (r: Result<(&str, Box<Bool>), ParseError>)
    ensures
        answers(r, input@, terms::quantifier(input@, 0, false)),
{
    let src = Source::new(input);
    match quantifier_at(&src, 0, false) {
        Some((j, b)) => Ok((src.rest(j), Box::new(b))),
        None => Err(ParseError),
    }
}

} // verus!
