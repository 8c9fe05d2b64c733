//! The rules of arithmetic expressions, each on a whole text.
use vstd::prelude::*;
use crate::ast::{Expr, Opcode, Value};
use crate::parser::{ParseError, answers};
use crate::parser::lexical::{Source, number_at};
use crate::parser::term_parsers::{
    add_expr_right_at, add_or_subtract_at, expr_number_at, math_expr_at, math_expr_val_at,
    mult_expr_at, mult_expr_right_at, mult_or_divide_or_mod_at, primary_expr_at,
};
use crate::parser::terms;

verus! {

/// A number, or a value, or an expression in brackets.
pub fn primary_expr(input: &str) -> (r: Result<(&str, Box<Expr>), ParseError>)
    ensures
        answers(r, input@, terms::primary_expr(input@, 0)),
{
    let src = Source::new(input);
    match primary_expr_at(&src, 0) {
        Some((j, e)) => Ok((src.rest(j), Box::new(e))),
        None => Err(ParseError),
    }
}

/// `* / %` and the operand after it.
pub fn mult_expr_right(input: &str) -> (r: Result<(&str, (Opcode, Box<Expr>)), ParseError>)
    ensures
        answers(r, input@, terms::mult_expr_right(input@, 0)),
{
    let src = Source::new(input);
    match mult_expr_right_at(&src, 0) {
        Some((j, (o, e))) => Ok((src.rest(j), (o, Box::new(e)))),
        None => Err(ParseError),
    }
}

/// Operands joined by `* / %`, grouped from the left.
pub fn mult_expr(input: &str) -> (r: Result<(&str, Box<Expr>), ParseError>)
    ensures
        answers(r, input@, terms::mult_expr(input@, 0)),
{
    let src = Source::new(input);
    match mult_expr_at(&src, 0) {
        Some((j, e)) => Ok((src.rest(j), Box::new(e))),
        None => Err(ParseError),
    }
}

/// `+ -` and the product after it.
pub fn add_expr_right(input: &str) -> (r: Result<(&str, (Opcode, Box<Expr>)), ParseError>)
    ensures
        answers(r, input@, terms::add_expr_right(input@, 0)),
{
    let src = Source::new(input);
    match add_expr_right_at(&src, 0) {
        Some((j, (o, e))) => Ok((src.rest(j), (o, Box::new(e)))),
        None => Err(ParseError),
    }
}

/// An arithmetic expression as a value.
pub fn expr_val(input: &str) -> (r: Result<(&str, Value), ParseError>)
    ensures
        answers(r, input@, terms::math_expr_val(input@, 0)),
{
    let src = Source::new(input);
    match math_expr_val_at(&src, 0) {
        Some((j, v)) => Ok((src.rest(j), v)),
        None => Err(ParseError),
    }
}

/// Products joined by `+ -`, grouped from the left.
pub fn expr(input: &str) -> (r: Result<(&str, Box<Expr>), ParseError>)
    ensures
        answers(r, input@, terms::math_expr(input@, 0)),
{
    let src = Source::new(input);
    match math_expr_at(&src, 0) {
        Some((j, e)) => Ok((src.rest(j), Box::new(e))),
        None => Err(ParseError),
    }
}

/// A number with an optional `-` before it.
pub fn expr_number(input: &str) -> (r: Result<(&str, Box<Expr>), ParseError>)
    ensures
        answers(r, input@, terms::expr_number(input@, 0)),
{
    let src = Source::new(input);
    match expr_number_at(&src, 0) {
        Some((j, e)) => Ok((src.rest(j), Box::new(e))),
        None => Err(ParseError),
    }
}

/// One of `* / %`.
pub fn mult_or_divide_or_mod(input: &str) -> (r: Result<(&str, Opcode), ParseError>)
    ensures
        answers(r, input@, terms::mult_or_divide_or_mod(input@, 0)),
{
    let src = Source::new(input);
    match mult_or_divide_or_mod_at(&src, 0) {
        Some((j, o)) => Ok((src.rest(j), o)),
        None => Err(ParseError),
    }
}

/// One of `+ -`.
pub fn add_or_subtract(input: &str) -> (r: Result<(&str, Opcode), ParseError>)
    ensures
        answers(r, input@, terms::add_or_subtract(input@, 0)),
{
    let src = Source::new(input);
    match add_or_subtract_at(&src, 0) {
        Some((j, o)) => Ok((src.rest(j), o)),
        None => Err(ParseError),
    }
}

/// Decimal digits whose value fits in an `i32`.
pub fn number(input: &str) -> (r: Result<(&str, i32), ParseError>)
    ensures
        answers(r, input@, crate::parser::lexical::number(input@, 0)),
{
    let src = Source::new(input);
    match number_at(&src, 0) {
        Some((j, v)) => Ok((src.rest(j), v)),
        None => Err(ParseError),
    }
}

} // verus!
