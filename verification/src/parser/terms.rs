//! The grammar of values: arithmetic expressions, boolean formulas,
//! variables, function calls, tuples, arrays and references.
//!
//! Each rule is a function of the text and a position that gives the
//! position after what it read and what it read, or nothing.  Alternatives
//! are tried in order and the first that succeeds wins.  Where a rule reads
//! on from the end of another, it checks that the position did not go back
//! (it never does) so that the recursion plainly ends.
use vstd::prelude::*;
use crate::ast::{Opcode, SBool, SExpr, SValue, SVariable};
use crate::parser::lexical::{
    after, char_at, function_name, number, skip_space, space1, tag, variable_name,
};

verus! {

/// Strictly after `i`, and not past the end.
pub open spec fn fwd(s: Seq<char>, i: int, j: int) -> bool {
    i < j <= s.len()
}

/// A number, possibly negative.
pub open spec fn expr_number(s: Seq<char>, i: int) -> Option<(int, SExpr)> {
    match tag(s, i, "-"@) {
        Some(j) => match number(s, j) {
            Some((k, v)) => Some((k, SExpr::Number((0 - v) as i32))),
            None => match number(s, i) {
                Some((k, v)) => Some((k, SExpr::Number(v))),
                None => None,
            },
        },
        None => match number(s, i) {
            Some((k, v)) => Some((k, SExpr::Number(v))),
            None => None,
        },
    }
}

pub open spec fn variable_single(s: Seq<char>, i: int) -> Option<(int, SVariable)> {
    match variable_name(s, i) {
        Some((j, w)) => Some((j, SVariable::Named(w))),
        None => None,
    }
}

pub open spec fn mult_op(c: char) -> Option<Opcode> {
    if c == '*' {
        Some(Opcode::Mul)
    } else if c == '/' {
        Some(Opcode::Div)
    } else if c == '%' {
        Some(Opcode::Rem)
    } else {
        None
    }
}

pub open spec fn add_op(c: char) -> Option<Opcode> {
    if c == '+' {
        Some(Opcode::Add)
    } else if c == '-' {
        Some(Opcode::Sub)
    } else {
        None
    }
}

/// One of `*`, `/`, `%` at `i`.
pub open spec fn mult_or_divide_or_mod(s: Seq<char>, i: int) -> Option<(int, Opcode)> {
    if 0 <= i < s.len() && mult_op(s[i]) is Some {
        Some((i + 1, mult_op(s[i])->0))
    } else {
        None
    }
}

/// One of `+`, `-` at `i`.
pub open spec fn add_or_subtract(s: Seq<char>, i: int) -> Option<(int, Opcode)> {
    if 0 <= i < s.len() && add_op(s[i]) is Some {
        Some((i + 1, add_op(s[i])->0))
    } else {
        None
    }
}

// ------------------------------------------------------------------
// Values
// ------------------------------------------------------------------
/// What may stand on the right of an assignment.
pub open spec fn r_value(s: Seq<char>, i: int) -> Option<(int, SValue)>
    decreases s.len() - i, 50int,
{
    if dereference(s, i) is Some {
        dereference(s, i)
    } else if tuple_values(s, i) is Some {
        tuple_values(s, i)
    } else if function_call(s, i) is Some {
        function_call(s, i)
    } else if variable_val(s, i) is Some {
        variable_val(s, i)
    } else if math_expr_val(s, i) is Some {
        math_expr_val(s, i)
    } else if bool_expr_val(s, i) is Some {
        bool_expr_val(s, i)
    } else if reference_mut(s, i) is Some {
        reference_mut(s, i)
    } else {
        reference(s, i)
    }
}

/// `& value`
pub open spec fn reference(s: Seq<char>, i: int) -> Option<(int, SValue)>
    decreases s.len() - i, 5int,
{
    match tag(s, i, "&"@) {
        None => None,
        Some(j) => {
            let k = skip_space(s, j);
            if !fwd(s, i, k) {
                None
            } else {
                match r_value(s, k) {
                    Some((m, v)) => Some((m, SValue::Reference(Box::new(v)))),
                    None => None,
                }
            }
        },
    }
}

/// `&mut value`
pub open spec fn reference_mut(s: Seq<char>, i: int) -> Option<(int, SValue)>
    decreases s.len() - i, 5int,
{
    match tag(s, i, "&mut"@) {
        None => None,
        Some(j) => match space1(s, j) {
            None => None,
            Some(k) => if !fwd(s, i, k) {
                None
            } else {
                match r_value(s, k) {
                    Some((m, v)) => Some((m, SValue::ReferenceMutable(Box::new(v)))),
                    None => None,
                }
            },
        },
    }
}

/// `* variable`
pub open spec fn dereference(s: Seq<char>, i: int) -> Option<(int, SValue)>
    decreases s.len() - i, 5int,
{
    match tag(s, i, "*"@) {
        None => None,
        Some(j) => {
            let k = skip_space(s, j);
            if !fwd(s, i, k) {
                None
            } else {
                match variable_val(s, k) {
                    Some((m, v)) => Some((m, SValue::Dereference(Box::new(v)))),
                    None => None,
                }
            }
        },
    }
}

/// `name(value, ...)`
pub open spec fn function_call(s: Seq<char>, i: int) -> Option<(int, SValue)>
    decreases s.len() - i, 5int,
{
    match function_name(s, i) {
        None => None,
        Some((j, name)) => match tag(s, skip_space(s, j), "("@) {
            None => None,
            Some(k) => {
                let p = skip_space(s, k);
                if !fwd(s, i, p) {
                    None
                } else {
                    let (q, args) = call_args(s, p);
                    if !after(s, p, q) {
                        None
                    } else {
                        match tag(s, skip_space(s, q), ")"@) {
                            Some(u) => Some((u, SValue::FunctionCall(name, args))),
                            None => None,
                        }
                    }
                }
            },
        },
    }
}

/// The arguments of a call: none, or values separated by commas.
pub open spec fn call_args(s: Seq<char>, i: int) -> (int, Seq<SValue>)
    decreases s.len() - i, 60int,
{
    match r_value(s, i) {
        Some((j, v)) => if fwd(s, i, j) {
            call_args_rest(s, j, seq![v])
        } else {
            (i, seq![])
        },
        None => (i, seq![]),
    }
}

/// `, value` as long as there is one.
pub open spec fn call_args_rest(s: Seq<char>, i: int, acc: Seq<SValue>) -> (int, Seq<SValue>)
    decreases s.len() - i, 3int,
{
    match tag(s, skip_space(s, i), ","@) {
        None => (i, acc),
        Some(a) => {
            let b = skip_space(s, a);
            if !fwd(s, i, b) {
                (i, acc)
            } else {
                match r_value(s, b) {
                    Some((c, v)) => if fwd(s, i, c) {
                        call_args_rest(s, c, acc.push(v))
                    } else {
                        (i, acc)
                    },
                    None => (i, acc),
                }
            }
        },
    }
}

/// A variable used as a value.
pub open spec fn variable_val(s: Seq<char>, i: int) -> Option<(int, SValue)>
    decreases s.len() - i, 12int,
{
    match variable(s, i) {
        Some((j, v)) => Some((j, SValue::Variable(v))),
        None => None,
    }
}

/// An element of a tuple, an element of an array, or a plain name.
pub open spec fn variable(s: Seq<char>, i: int) -> Option<(int, SVariable)>
    decreases s.len() - i, 11int,
{
    if variable_tuple_elem(s, i) is Some {
        variable_tuple_elem(s, i)
    } else if variable_array_elem(s, i) is Some {
        variable_array_elem(s, i)
    } else {
        variable_single(s, i)
    }
}

/// `name[index]`
pub open spec fn variable_array_elem(s: Seq<char>, i: int) -> Option<(int, SVariable)>
    decreases s.len() - i, 10int,
{
    match variable_name(s, i) {
        None => None,
        Some((j, w)) => match char_at(s, j, '[') {
            None => None,
            Some(k) => {
                let m = skip_space(s, k);
                if !fwd(s, i, m) {
                    None
                } else {
                    match r_value(s, m) {
                        None => None,
                        Some((p, v)) => match char_at(s, skip_space(s, p), ']') {
                            Some(q) => Some((q, SVariable::ArrayElem(w, Box::new(v)))),
                            None => None,
                        },
                    }
                }
            },
        },
    }
}

/// `name.index`
pub open spec fn variable_tuple_elem(s: Seq<char>, i: int) -> Option<(int, SVariable)>
    decreases s.len() - i, 10int,
{
    match variable_name(s, i) {
        None => None,
        Some((j, w)) => match char_at(s, j, '.') {
            None => None,
            Some(k) => if !fwd(s, i, k) {
                None
            } else {
                match r_value(s, k) {
                    Some((p, v)) => Some((p, SVariable::TupleElem(w, Box::new(v)))),
                    None => None,
                }
            },
        },
    }
}

/// `(value, value?, ...)`: a tuple has a comma after its first value.
pub open spec fn tuple_values(s: Seq<char>, i: int) -> Option<(int, SValue)>
    decreases s.len() - i, 5int,
{
    match tag(s, i, "("@) {
        None => None,
        Some(a) => {
            let b = skip_space(s, a);
            if !fwd(s, i, b) {
                None
            } else {
                match r_value(s, b) {
                    None => None,
                    Some((c, first)) => match char_at(s, skip_space(s, c), ',') {
                        None => None,
                        Some(e) => {
                            let g = skip_space(s, e);
                            if !fwd(s, i, g) {
                                None
                            } else {
                                let (h, second) = match r_value(s, g) {
                                    Some((h, v)) => (h, seq![v]),
                                    None => (g, seq![]),
                                };
                                let k = skip_space(s, h);
                                if !fwd(s, i, k) {
                                    None
                                } else {
                                    let (m, rest) = tuple_rest(s, k, seq![]);
                                    match tag(s, skip_space(s, m), ")"@) {
                                        Some(p) => Some((p, SValue::Tuple(seq![first] + second + rest))),
                                        None => None,
                                    }
                                }
                            }
                        },
                    },
                }
            }
        },
    }
}

/// `, value` (followed by spaces) as long as there is one.
pub open spec fn tuple_rest(s: Seq<char>, i: int, acc: Seq<SValue>) -> (int, Seq<SValue>)
    decreases s.len() - i, 4int,
{
    match char_at(s, i, ',') {
        None => (i, acc),
        Some(a) => {
            let b = skip_space(s, a);
            if !fwd(s, i, b) {
                (i, acc)
            } else {
                match r_value(s, b) {
                    Some((c, v)) => {
                        let d = skip_space(s, c);
                        if fwd(s, i, d) {
                            tuple_rest(s, d, acc.push(v))
                        } else {
                            (i, acc)
                        }
                    },
                    None => (i, acc),
                }
            }
        },
    }
}

/// `[value, ...]`
pub open spec fn array_content(s: Seq<char>, i: int) -> Option<(int, SValue)>
    decreases s.len() - i, 5int,
{
    match char_at(s, i, '[') {
        None => None,
        Some(a) => {
            let b = skip_space(s, a);
            if !fwd(s, i, b) {
                None
            } else {
                match r_value(s, b) {
                    None => None,
                    Some((c, first)) => {
                        let d = skip_space(s, c);
                        if !fwd(s, i, d) {
                            None
                        } else {
                            let (e, rest) = array_rest(s, d, seq![]);
                            match char_at(s, skip_space(s, e), ']') {
                                Some(g) => Some((g, SValue::Array(seq![first] + rest))),
                                None => None,
                            }
                        }
                    },
                }
            }
        },
    }
}

/// `, value` as long as there is one.
pub open spec fn array_rest(s: Seq<char>, i: int, acc: Seq<SValue>) -> (int, Seq<SValue>)
    decreases s.len() - i, 4int,
{
    match char_at(s, i, ',') {
        None => (i, acc),
        Some(a) => {
            let b = skip_space(s, a);
            if !fwd(s, i, b) {
                (i, acc)
            } else {
                match r_value(s, b) {
                    Some((c, v)) => if fwd(s, i, c) {
                        array_rest(s, c, acc.push(v))
                    } else {
                        (i, acc)
                    },
                    None => (i, acc),
                }
            }
        },
    }
}

// ------------------------------------------------------------------
// Arithmetic
// ------------------------------------------------------------------
pub open spec fn math_expr_val(s: Seq<char>, i: int) -> Option<(int, SValue)>
    decreases s.len() - i, 30int,
{
    match math_expr(s, i) {
        Some((j, e)) => Some((j, SValue::Expr(e))),
        None => None,
    }
}

/// Sums and differences of products, associated to the left.
pub open spec fn math_expr(s: Seq<char>, i: int) -> Option<(int, SExpr)>
    decreases s.len() - i, 29int,
{
    let a = skip_space(s, i);
    if !after(s, i, a) {
        None
    } else {
        match mult_expr(s, a) {
            None => None,
            Some((b, e)) => if after(s, i, b) {
                Some(add_rest(s, b, e))
            } else {
                None
            },
        }
    }
}

/// `+ product` or `- product` as long as there is one.
pub open spec fn add_rest(s: Seq<char>, i: int, acc: SExpr) -> (int, SExpr)
    decreases s.len() - i, 28int,
{
    match add_expr_right(s, i) {
        Some((j, (op, e))) => if fwd(s, i, j) {
            add_rest(s, j, SExpr::Op(Box::new(acc), op, Box::new(e)))
        } else {
            (i, acc)
        },
        None => (i, acc),
    }
}

pub open spec fn add_expr_right(s: Seq<char>, i: int) -> Option<(int, (Opcode, SExpr))>
    decreases s.len() - i, 27int,
{
    match add_or_subtract(s, skip_space(s, i)) {
        None => None,
        Some((b, op)) => {
            let c = skip_space(s, b);
            if !fwd(s, i, c) {
                None
            } else {
                match mult_expr(s, c) {
                    Some((d, e)) => Some((skip_space(s, d), (op, e))),
                    None => None,
                }
            }
        },
    }
}

/// Products, quotients and remainders, associated to the left.
pub open spec fn mult_expr(s: Seq<char>, i: int) -> Option<(int, SExpr)>
    decreases s.len() - i, 26int,
{
    let a = skip_space(s, i);
    if !after(s, i, a) {
        None
    } else {
        match primary_expr(s, a) {
            None => None,
            Some((b, e)) => if after(s, i, b) {
                Some(mult_rest(s, b, e))
            } else {
                None
            },
        }
    }
}

pub open spec fn mult_rest(s: Seq<char>, i: int, acc: SExpr) -> (int, SExpr)
    decreases s.len() - i, 25int,
{
    match mult_expr_right(s, i) {
        Some((j, (op, e))) => if fwd(s, i, j) {
            mult_rest(s, j, SExpr::Op(Box::new(acc), op, Box::new(e)))
        } else {
            (i, acc)
        },
        None => (i, acc),
    }
}

pub open spec fn mult_expr_right(s: Seq<char>, i: int) -> Option<(int, (Opcode, SExpr))>
    decreases s.len() - i, 24int,
{
    match mult_or_divide_or_mod(s, skip_space(s, i)) {
        None => None,
        Some((b, op)) => {
            let c = skip_space(s, b);
            if !fwd(s, i, c) {
                None
            } else {
                match primary_expr(s, c) {
                    Some((d, e)) => Some((skip_space(s, d), (op, e))),
                    None => None,
                }
            }
        },
    }
}

/// A number, a call or a variable, or an expression in parentheses.
pub open spec fn primary_expr(s: Seq<char>, i: int) -> Option<(int, SExpr)>
    decreases s.len() - i, 23int,
{
    if expr_number(s, i) is Some {
        expr_number(s, i)
    } else if expr_r_value(s, i) is Some {
        expr_r_value(s, i)
    } else {
        match char_at(s, i, '(') {
            None => None,
            Some(j) => {
                let k = skip_space(s, j);
                if !fwd(s, i, k) {
                    None
                } else {
                    match math_expr(s, k) {
                        None => None,
                        Some((m, e)) => match char_at(s, skip_space(s, m), ')') {
                            Some(n) => Some((skip_space(s, n), e)),
                            None => None,
                        },
                    }
                }
            },
        }
    }
}

/// A call or a variable inside an expression.
pub open spec fn expr_r_value(s: Seq<char>, i: int) -> Option<(int, SExpr)>
    decreases s.len() - i, 22int,
{
    match function_call(s, i) {
        Some((j, v)) => Some((j, SExpr::Value(Box::new(v)))),
        None => match variable_val(s, i) {
            Some((j, v)) => Some((j, SExpr::Value(Box::new(v)))),
            None => None,
        },
    }
}

// ------------------------------------------------------------------
// Formulas
// ------------------------------------------------------------------
pub open spec fn bool_expr_val(s: Seq<char>, i: int) -> Option<(int, SValue)>
    decreases s.len() - i, 46int,
{
    match bool_expr(s, i) {
        Some((j, b)) => Some((j, SValue::Bool(b))),
        None => None,
    }
}

/// Disjunctions of conjunctions, associated to the left.
pub open spec fn bool_expr(s: Seq<char>, i: int) -> Option<(int, SBool)>
    decreases s.len() - i, 45int,
{
    let a = skip_space(s, i);
    if !after(s, i, a) {
        None
    } else {
        match bool_mult_expr(s, a) {
            None => None,
            Some((b, e)) => if after(s, i, b) {
                Some(or_rest(s, b, e))
            } else {
                None
            },
        }
    }
}

pub open spec fn or_rest(s: Seq<char>, i: int, acc: SBool) -> (int, SBool)
    decreases s.len() - i, 44int,
{
    match bool_add_expr_right(s, i) {
        Some((j, e)) => if fwd(s, i, j) {
            or_rest(s, j, SBool::Or(Box::new(acc), Box::new(e)))
        } else {
            (i, acc)
        },
        None => (i, acc),
    }
}

/// `|| conjunction`
pub open spec fn bool_add_expr_right(s: Seq<char>, i: int) -> Option<(int, SBool)>
    decreases s.len() - i, 43int,
{
    match tag(s, skip_space(s, i), "||"@) {
        None => None,
        Some(b) => {
            let c = skip_space(s, b);
            if !fwd(s, i, c) {
                None
            } else {
                match bool_mult_expr(s, c) {
                    Some((d, e)) => Some((skip_space(s, d), e)),
                    None => None,
                }
            }
        },
    }
}

pub open spec fn bool_mult_expr(s: Seq<char>, i: int) -> Option<(int, SBool)>
    decreases s.len() - i, 42int,
{
    let a = skip_space(s, i);
    if !after(s, i, a) {
        None
    } else {
        match factor(s, a) {
            None => None,
            Some((b, e)) => if after(s, i, b) {
                Some(and_rest(s, b, e))
            } else {
                None
            },
        }
    }
}

pub open spec fn and_rest(s: Seq<char>, i: int, acc: SBool) -> (int, SBool)
    decreases s.len() - i, 41int,
{
    match bool_mult_expr_right(s, i) {
        Some((j, e)) => if fwd(s, i, j) {
            and_rest(s, j, SBool::And(Box::new(acc), Box::new(e)))
        } else {
            (i, acc)
        },
        None => (i, acc),
    }
}

/// `&& factor`
pub open spec fn bool_mult_expr_right(s: Seq<char>, i: int) -> Option<(int, SBool)>
    decreases s.len() - i, 39int,
{
    match tag(s, skip_space(s, i), "&&"@) {
        None => None,
        Some(b) => {
            let c = skip_space(s, b);
            if !fwd(s, i, c) {
                None
            } else {
                match factor(s, c) {
                    Some((d, e)) => Some((skip_space(s, d), e)),
                    None => None,
                }
            }
        },
    }
}

/// A quantified formula, a comparison, a constant or a variable, a
/// negation, or a formula in parentheses.
pub open spec fn factor(s: Seq<char>, i: int) -> Option<(int, SBool)>
    decreases s.len() - i, 40int,
{
    if quantifier(s, i, true) is Some {
        quantifier(s, i, true)
    } else if quantifier(s, i, false) is Some {
        quantifier(s, i, false)
    } else if factor_compare(s, i, 0) is Some {
        factor_compare(s, i, 0)
    } else if factor_id(s, i) is Some {
        factor_id(s, i)
    } else if factor_not(s, i) is Some {
        factor_not(s, i)
    } else {
        factor_paren(s, i)
    }
}

/// `forall x formula` (`all`) or `exists x formula`.
pub open spec fn quantifier(s: Seq<char>, i: int, all: bool) -> Option<(int, SBool)>
    decreases s.len() - i, 39int,
{
    match tag(s, i, if all { "forall"@ } else { "exists"@ }) {
        None => None,
        Some(a) => match space1(s, a) {
            None => None,
            Some(b) => match variable_single(s, b) {
                None => None,
                Some((c, v)) => match space1(s, c) {
                    None => None,
                    Some(d) => if !fwd(s, i, d) {
                        None
                    } else {
                        match bool_expr(s, d) {
                            Some((e, body)) => Some(
                                (e, if all {
                                    SBool::ForAll(v, Box::new(body))
                                } else {
                                    SBool::Exists(v, Box::new(body))
                                }),
                            ),
                            None => None,
                        }
                    },
                },
            },
        },
    }
}

/// The comparison operators, in the order in which they are tried.
pub open spec fn compare_op(k: int) -> Seq<char> {
    if k == 0 {
        "=="@
    } else if k == 1 {
        "!="@
    } else if k == 2 {
        ">="@
    } else if k == 3 {
        ">"@
    } else if k == 4 {
        "<="@
    } else {
        "<"@
    }
}

/// The formula of a comparison; `a != b` is `!(a == b)`.
pub open spec fn compare_build(k: int, a: SExpr, b: SExpr) -> SBool {
    if k == 0 {
        SBool::Equal(a, b)
    } else if k == 1 {
        SBool::Not(Box::new(SBool::Equal(a, b)))
    } else if k == 2 {
        SBool::GreaterEqual(a, b)
    } else if k == 3 {
        SBool::GreaterThan(a, b)
    } else if k == 4 {
        SBool::LowerEqual(a, b)
    } else {
        SBool::LowerThan(a, b)
    }
}

/// `expression op expression` for the operator `k`.
pub open spec fn factor_compare_op(s: Seq<char>, i: int, k: int) -> Option<(int, SBool)>
    decreases s.len() - i, 31int,
{
    match math_expr(s, i) {
        None => None,
        Some((a, lhs)) => match tag(s, skip_space(s, a), compare_op(k)) {
            None => None,
            Some(c) => {
                let d = skip_space(s, c);
                if !fwd(s, i, d) {
                    None
                } else {
                    match math_expr(s, d) {
                        Some((e, rhs)) => Some((e, compare_build(k, lhs, rhs))),
                        None => None,
                    }
                }
            },
        },
    }
}

/// The first of the comparisons from the operator `k` on that reads.
pub open spec fn factor_compare(s: Seq<char>, i: int, k: int) -> Option<(int, SBool)>
    decreases s.len() - i, 38 - k,
{
    if k < 0 || k >= 6 {
        None
    } else if factor_compare_op(s, i, k) is Some {
        factor_compare_op(s, i, k)
    } else {
        factor_compare(s, i, k + 1)
    }
}

/// `true`, `false`, a call or a variable.
pub open spec fn factor_id(s: Seq<char>, i: int) -> Option<(int, SBool)>
    decreases s.len() - i, 39int,
{
    match tag(s, i, "true"@) {
        Some(j) => Some((j, SBool::True)),
        None => match tag(s, i, "false"@) {
            Some(j) => Some((j, SBool::False)),
            None => bool_expr_r_value(s, i),
        },
    }
}

pub open spec fn bool_expr_r_value(s: Seq<char>, i: int) -> Option<(int, SBool)>
    decreases s.len() - i, 20int,
{
    match function_call(s, i) {
        Some((j, v)) => Some((j, SBool::Value(Box::new(v)))),
        None => match variable_val(s, i) {
            Some((j, v)) => Some((j, SBool::Value(Box::new(v)))),
            None => None,
        },
    }
}

/// `! factor`
pub open spec fn factor_not(s: Seq<char>, i: int) -> Option<(int, SBool)>
    decreases s.len() - i, 39int,
{
    match tag(s, i, "!"@) {
        None => None,
        Some(a) => {
            let b = skip_space(s, a);
            if !fwd(s, i, b) {
                None
            } else {
                match factor(s, b) {
                    Some((c, e)) => Some((c, SBool::Not(Box::new(e)))),
                    None => None,
                }
            }
        },
    }
}

/// `( formula )`
pub open spec fn factor_paren(s: Seq<char>, i: int) -> Option<(int, SBool)>
    decreases s.len() - i, 39int,
{
    match tag(s, skip_space(s, i), "("@) {
        None => None,
        Some(b) => {
            let c = skip_space(s, b);
            if !fwd(s, i, c) {
                None
            } else {
                match bool_expr(s, c) {
                    None => None,
                    Some((d, e)) => match tag(s, skip_space(s, d), ")"@) {
                        Some(g) => Some((skip_space(s, g), e)),
                        None => None,
                    },
                }
            }
        },
    }
}

} // verus!
