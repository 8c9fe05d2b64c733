//! The grammar of annotations, types, bindings, assignments, commands,
//! blocks, functions and programs, in the style of `terms`.
use vstd::prelude::*;
use crate::ast::{
    SBinding, SBlock, SBool, SCommand, SExpr, SFunction, SProgram, SProveControl, SType, SValue,
    SVariable, SAssignment,
};
use crate::parser::lexical::{
    after, char_at, find_close, function_name, number, skip_line, skip_multispace, skip_space,
    space1, tag,
};
use crate::parser::terms::{
    array_content, bool_expr, bool_expr_val, dereference, fwd, math_expr, math_expr_val,
    r_value, reference, reference_mut, tuple_values, variable, variable_single,
};

verus! {

// ------------------------------------------------------------------
// Annotations
// ------------------------------------------------------------------
/// `//%word formula` and the end of the line.
pub open spec fn annotation(s: Seq<char>, i: int, word: Seq<char>) -> Option<(int, SBool)> {
    match tag(s, i, "//%"@) {
        None => None,
        Some(a) => match tag(s, a, word) {
            None => None,
            Some(b) => match space1(s, b) {
                None => None,
                Some(c) => match bool_expr(s, c) {
                    None => None,
                    Some((d, e)) => match char_at(s, d, '\n') {
                        Some(f) => Some((f, e)),
                        None => None,
                    },
                },
            },
        },
    }
}

/// `//%variant expression` and the end of the line.
pub open spec fn variant(s: Seq<char>, i: int) -> Option<(int, SExpr)> {
    match tag(s, i, "//%variant"@) {
        None => None,
        Some(b) => match space1(s, b) {
            None => None,
            Some(c) => match math_expr(s, c) {
                None => None,
                Some((d, e)) => match char_at(s, d, '\n') {
                    Some(f) => Some((f, e)),
                    None => None,
                },
            },
        },
    }
}

// ------------------------------------------------------------------
// Types
// ------------------------------------------------------------------
pub open spec fn type_def_single(s: Seq<char>, i: int) -> Option<(int, SType)> {
    match tag(s, i, "bool"@) {
        Some(j) => Some((j, SType::Bool)),
        None => match tag(s, i, "i32"@) {
            Some(j) => Some((j, SType::I32)),
            None => None,
        },
    }
}

/// `[type; length]`
pub open spec fn array_type(s: Seq<char>, i: int) -> Option<(int, SType)> {
    match char_at(s, i, '[') {
        None => None,
        Some(a) => match type_def_single(s, skip_space(s, a)) {
            None => None,
            Some((c, t)) => match char_at(s, skip_space(s, c), ';') {
                None => None,
                Some(e) => match number(s, skip_space(s, e)) {
                    None => None,
                    Some((g, n)) => match char_at(s, skip_space(s, g), ']') {
                        Some(k) => Some((k, SType::Array(Box::new(t), n))),
                        None => None,
                    },
                },
            },
        },
    }
}

/// `&[type]`
pub open spec fn array_slice_type(s: Seq<char>, i: int) -> Option<(int, SType)> {
    match char_at(s, i, '&') {
        None => None,
        Some(a) => match char_at(s, skip_space(s, a), '[') {
            None => None,
            Some(b) => match type_def_single(s, skip_space(s, b)) {
                None => None,
                Some((c, t)) => match char_at(s, skip_space(s, c), ']') {
                    Some(d) => Some((d, SType::ArraySlice(Box::new(t)))),
                    None => None,
                },
            },
        },
    }
}

/// `, type` (followed by spaces) as long as there is one.
pub open spec fn type_rest(s: Seq<char>, i: int, acc: Seq<SType>) -> (int, Seq<SType>)
    decreases s.len() - i,
{
    match char_at(s, i, ',') {
        None => (i, acc),
        Some(a) => match type_def_single(s, skip_space(s, a)) {
            None => (i, acc),
            Some((c, t)) => {
                let d = skip_space(s, c);
                if fwd(s, i, d) {
                    type_rest(s, d, acc.push(t))
                } else {
                    (i, acc)
                }
            },
        },
    }
}

/// `(type, type?, ...)`
pub open spec fn tuple_type(s: Seq<char>, i: int) -> Option<(int, SType)> {
    match tag(s, i, "("@) {
        None => None,
        Some(a) => match type_def_single(s, skip_space(s, a)) {
            None => None,
            Some((c, first)) => match char_at(s, skip_space(s, c), ',') {
                None => None,
                Some(e) => {
                    let g = skip_space(s, e);
                    let (h, second) = match type_def_single(s, g) {
                        Some((h, t)) => (h, seq![t]),
                        None => (g, seq![]),
                    };
                    let (m, rest) = type_rest(s, skip_space(s, h), seq![]);
                    match tag(s, skip_space(s, m), ")"@) {
                        Some(p) => Some((p, SType::Tuple(seq![first] + second + rest))),
                        None => None,
                    }
                },
            },
        },
    }
}

/// An optional `&` or `&mut` and an array type, a tuple type or a
/// plain type.
pub open spec fn type_def(s: Seq<char>, i: int) -> Option<(int, SType)> {
    let (j, refk) = match tag(s, i, "&mut"@) {
        Some(p) => (skip_space(s, p), 2int),
        None => match tag(s, i, "&"@) {
            Some(p) => (skip_space(s, p), 1int),
            None => (i, 0int),
        },
    };
    let base = match array_type(s, j) {
        Some(r) => Some(r),
        None => match tuple_type(s, j) {
            Some(r) => Some(r),
            None => type_def_single(s, j),
        },
    };
    match base {
        None => None,
        Some((k, t)) => Some(
            (k, if refk == 2 {
                SType::ReferenceMutable(Box::new(t))
            } else if refk == 1 {
                SType::Reference(Box::new(t))
            } else {
                t
            }),
        ),
    }
}

/// The type of a parameter: a slice, or any other type.
pub open spec fn type_def_function(s: Seq<char>, i: int) -> Option<(int, SType)> {
    match array_slice_type(s, i) {
        Some(r) => Some(r),
        None => type_def(s, i),
    }
}

// ------------------------------------------------------------------
// Parameters
// ------------------------------------------------------------------
/// `mut` and at least one space.
pub open spec fn mut_prefix(s: Seq<char>, i: int) -> Option<int> {
    match tag(s, i, "mut"@) {
        Some(a) => space1(s, a),
        None => None,
    }
}

/// Whether a `mut` comes, and where what follows it starts.
pub open spec fn opt_mut(s: Seq<char>, i: int) -> (bool, int) {
    match mut_prefix(s, i) {
        Some(b) => (true, b),
        None => (false, i),
    }
}

/// `mut? name: type`
pub open spec fn function_input(s: Seq<char>, i: int) -> Option<(int, SBinding)> {
    let (mu, b) = opt_mut(s, skip_space(s, i));
    match variable(s, b) {
        None => None,
        Some((c, v)) => match char_at(s, skip_space(s, c), ':') {
            None => None,
            Some(e) => match type_def_function(s, skip_space(s, e)) {
                None => None,
                Some((g, t)) => Some((skip_space(s, g), SBinding::Declaration(v, t, mu))),
            },
        },
    }
}

pub open spec fn inputs_rest(s: Seq<char>, i: int, acc: Seq<SBinding>) -> (int, Seq<SBinding>)
    decreases s.len() - i,
{
    match char_at(s, i, ',') {
        None => (i, acc),
        Some(a) => match function_input(s, a) {
            Some((b, x)) => if fwd(s, i, b) {
                inputs_rest(s, b, acc.push(x))
            } else {
                (i, acc)
            },
            None => (i, acc),
        },
    }
}

/// The parameters, separated by commas; possibly none.
pub open spec fn function_inputs(s: Seq<char>, i: int) -> (int, Seq<SBinding>) {
    match function_input(s, i) {
        Some((j, b)) => if fwd(s, i, j) {
            inputs_rest(s, j, seq![b])
        } else {
            (i, seq![])
        },
        None => (i, seq![]),
    }
}

// ------------------------------------------------------------------
// Left sides of tuple bindings and assignments
// ------------------------------------------------------------------
/// A variable, or `_`.
pub open spec fn var_or_empty(s: Seq<char>, i: int) -> Option<(int, SVariable)> {
    match variable(s, i) {
        Some(r) => Some(r),
        None => match tag(s, i, "_"@) {
            Some(j) => Some((j, SVariable::Empty)),
            None => None,
        },
    }
}

/// `mut? variable-or-_`
pub open spec fn let_elem(s: Seq<char>, i: int) -> Option<(int, (bool, SVariable))> {
    let (mu, a) = opt_mut(s, i);
    match var_or_empty(s, a) {
        Some((b, v)) => Some((b, (mu, v))),
        None => None,
    }
}

pub open spec fn let_rest(s: Seq<char>, i: int, acc: Seq<(bool, SVariable)>) -> (int, Seq<(bool, SVariable)>)
    decreases s.len() - i,
{
    match char_at(s, i, ',') {
        None => (i, acc),
        Some(a) => match let_elem(s, skip_space(s, a)) {
            None => (i, acc),
            Some((c, x)) => {
                let d = skip_space(s, c);
                if fwd(s, i, d) {
                    let_rest(s, d, acc.push(x))
                } else {
                    (i, acc)
                }
            },
        },
    }
}

/// `(mut? a, mut? b?, ...)` on the left of a tuple binding.
pub open spec fn let_tuple_left(s: Seq<char>, i: int) -> Option<(int, Seq<(bool, SVariable)>)> {
    match tag(s, i, "("@) {
        None => None,
        Some(a) => match let_elem(s, skip_space(s, a)) {
            None => None,
            Some((c, first)) => match char_at(s, skip_space(s, c), ',') {
                None => None,
                Some(e) => {
                    let f = skip_space(s, e);
                    let (g, second) = match let_elem(s, f) {
                        Some((g, x)) => (g, seq![x]),
                        None => (f, seq![]),
                    };
                    let (m, rest) = let_rest(s, skip_space(s, g), seq![]);
                    match tag(s, skip_space(s, m), ")"@) {
                        Some(p) => Some((p, seq![first] + second + rest)),
                        None => None,
                    }
                },
            },
        },
    }
}

pub open spec fn unpack_rest(s: Seq<char>, i: int, acc: Seq<SVariable>) -> (int, Seq<SVariable>)
    decreases s.len() - i,
{
    match char_at(s, i, ',') {
        None => (i, acc),
        Some(a) => match var_or_empty(s, skip_space(s, a)) {
            None => (i, acc),
            Some((c, v)) => {
                let d = skip_space(s, c);
                if fwd(s, i, d) {
                    unpack_rest(s, d, acc.push(v))
                } else {
                    (i, acc)
                }
            },
        },
    }
}

/// `(a, b?, ...)` on the left of a tuple assignment.
pub open spec fn tuple_unpack_left(s: Seq<char>, i: int) -> Option<(int, Seq<SVariable>)> {
    match tag(s, i, "("@) {
        None => None,
        Some(a) => match var_or_empty(s, skip_space(s, a)) {
            None => None,
            Some((c, first)) => match char_at(s, skip_space(s, c), ',') {
                None => None,
                Some(e) => {
                    let f = skip_space(s, e);
                    let (g, second) = match var_or_empty(s, f) {
                        Some((g, v)) => (g, seq![v]),
                        None => (f, seq![]),
                    };
                    let (m, rest) = unpack_rest(s, skip_space(s, g), seq![]);
                    match tag(s, skip_space(s, m), ")"@) {
                        Some(p) => Some((p, seq![first] + second + rest)),
                        None => None,
                    }
                },
            },
        },
    }
}

/// The elements of the tuple named `name`: `name.0`, `name.1`, ...
pub open spec fn tuple_elems(name: Seq<char>, n: nat) -> Seq<SValue> {
    Seq::new(
        n,
        |k: int| SValue::Variable(SVariable::TupleElem(name, Box::new(SValue::Expr(SExpr::Number(k as i32))))),
    )
}

pub open spec fn tuple_parts(t: SType) -> Seq<SType> {
    match t {
        SType::Tuple(ts) => ts,
        _ => seq![],
    }
}

pub open spec fn value_parts(v: SValue) -> Seq<SValue> {
    match v {
        SValue::Tuple(vs) => vs,
        _ => seq![],
    }
}

pub open spec fn min2(a: int, b: int) -> int {
    if a <= b {
        a
    } else {
        b
    }
}

/// One binding for each element, as far as all the lists go.
pub open spec fn zip_bindings(
    left: Seq<(bool, SVariable)>,
    types: Seq<SType>,
    vals: Seq<SValue>,
) -> Seq<SCommand> {
    Seq::new(
        min2(min2(left.len() as int, types.len() as int), vals.len() as int) as nat,
        |k: int| SCommand::Binding(SBinding::Assignment(left[k].1, types[k], vals[k], left[k].0)),
    )
}

/// One declaration for each element, as far as both lists go.
pub open spec fn zip_declarations(left: Seq<(bool, SVariable)>, types: Seq<SType>) -> Seq<SCommand> {
    Seq::new(
        min2(left.len() as int, types.len() as int) as nat,
        |k: int| SCommand::Binding(SBinding::Declaration(left[k].1, types[k], left[k].0)),
    )
}

/// One assignment for each element, as far as both lists go.
pub open spec fn zip_assignments(vars: Seq<SVariable>, vals: Seq<SValue>) -> Seq<SAssignment> {
    Seq::new(
        min2(vars.len() as int, vals.len() as int) as nat,
        |k: int| SAssignment::Single(vars[k], vals[k]),
    )
}

// ------------------------------------------------------------------
// Bindings
// ------------------------------------------------------------------
/// `let` between blanks.
pub open spec fn let_start(s: Seq<char>, i: int) -> Option<int> {
    match tag(s, skip_space(s, i), "let"@) {
        Some(b) => space1(s, b),
        None => None,
    }
}

/// `: (types) = (values);` after the left side of a tuple binding.
pub open spec fn tuple_binding_rhs(s: Seq<char>, i: int) -> Option<(int, (Seq<SType>, Seq<SValue>))> {
    match char_at(s, skip_space(s, i), ':') {
        None => None,
        Some(d) => match tuple_type(s, skip_space(s, d)) {
            None => None,
            Some((f, t)) => match char_at(s, skip_space(s, skip_space(s, f)), '=') {
                None => None,
                Some(h) => match tuple_values(s, skip_space(s, h)) {
                    None => None,
                    Some((m, v)) => match char_at(s, skip_space(s, m), ';') {
                        Some(p) => Some((p, (tuple_parts(t), value_parts(v)))),
                        None => None,
                    },
                },
            },
        },
    }
}

/// `let (x, mut y, _): (T, U, V) = (a, b, c);`
pub open spec fn binding_assignment_tuple_multiple(s: Seq<char>, i: int) -> Option<(int, SCommand)> {
    match let_start(s, i) {
        None => None,
        Some(a) => match let_tuple_left(s, a) {
            None => None,
            Some((b, left)) => match tuple_binding_rhs(s, b) {
                None => None,
                Some((p, (types, vals))) => Some(
                    (p, SCommand::Binding(SBinding::Tuple(zip_bindings(left, types, vals)))),
                ),
            },
        },
    }
}

/// `let (x, mut y, _): (T, U, V) = t;`: the elements of `t`.
pub open spec fn binding_assignment_tuple_single(s: Seq<char>, i: int) -> Option<(int, SCommand)> {
    match let_start(s, i) {
        None => None,
        Some(a) => match let_tuple_left(s, a) {
            None => None,
            Some((b, left)) => match char_at(s, skip_space(s, b), ':') {
                None => None,
                Some(d) => match tuple_type(s, skip_space(s, d)) {
                    None => None,
                    Some((f, t)) => match char_at(s, skip_space(s, skip_space(s, f)), '=') {
                        None => None,
                        Some(h) => match variable_single(s, skip_space(s, h)) {
                            Some((m, SVariable::Named(name))) => match char_at(s, skip_space(s, m), ';') {
                                Some(p) => Some(
                                    (p, SCommand::Binding(
                                        SBinding::Tuple(
                                            zip_bindings(left, tuple_parts(t), tuple_elems(name, left.len())),
                                        ),
                                    )),
                                ),
                                None => None,
                            },
                            _ => None,
                        },
                    },
                },
            },
        },
    }
}

/// The `k`-th form of a typed binding: `: T = value;` for arrays,
/// tuples, booleans and integers.
pub open spec fn typed_rhs(s: Seq<char>, i: int, k: int) -> Option<(int, (SType, SValue))> {
    match char_at(s, i, ':') {
        None => None,
        Some(e) => {
            let f = skip_space(s, e);
            let ty = if k == 0 {
                array_type(s, f)
            } else if k == 1 {
                tuple_type(s, f)
            } else if k == 2 {
                match tag(s, f, "bool"@) {
                    Some(j) => Some((j, SType::Bool)),
                    None => None,
                }
            } else {
                match tag(s, f, "i32"@) {
                    Some(j) => Some((j, SType::I32)),
                    None => None,
                }
            };
            match ty {
                None => None,
                Some((g, t)) => match char_at(s, skip_space(s, g), '=') {
                    None => None,
                    Some(m) => {
                        let n = skip_space(s, m);
                        let val = if k == 0 {
                            array_content(s, n)
                        } else if k == 1 {
                            tuple_values(s, n)
                        } else if k == 2 {
                            bool_expr_val(s, n)
                        } else {
                            math_expr_val(s, n)
                        };
                        match val {
                            None => None,
                            Some((p, v)) => match char_at(s, skip_space(s, p), ';') {
                                Some(r) => Some((r, (t, v))),
                                None => None,
                            },
                        }
                    },
                },
            }
        },
    }
}

/// The first form of typed binding from the `k`-th on that reads.
pub open spec fn typed_rhs_from(s: Seq<char>, i: int, k: int) -> Option<(int, (SType, SValue))>
    decreases 4 - k,
{
    if k < 0 || k >= 4 {
        None
    } else if typed_rhs(s, i, k) is Some {
        typed_rhs(s, i, k)
    } else {
        typed_rhs_from(s, i, k + 1)
    }
}

/// `let mut? x: T = value;`
pub open spec fn binding_assignment(s: Seq<char>, i: int) -> Option<(int, SCommand)> {
    match let_start(s, i) {
        None => None,
        Some(a) => {
            let (mu, b) = opt_mut(s, a);
            match variable(s, b) {
                None => None,
                Some((c, v)) => match typed_rhs_from(s, skip_space(s, c), 0) {
                    Some((r, (t, val))) => Some((r, SCommand::Binding(SBinding::Assignment(v, t, val, mu)))),
                    None => None,
                },
            }
        },
    }
}

/// `let mut? x: T;`
pub open spec fn binding_declaration(s: Seq<char>, i: int) -> Option<(int, SCommand)> {
    match let_start(s, i) {
        None => None,
        Some(a) => {
            let (mu, b) = opt_mut(s, a);
            match variable(s, b) {
                None => None,
                Some((c, v)) => match char_at(s, skip_space(s, c), ':') {
                    None => None,
                    Some(e) => match type_def(s, skip_space(s, e)) {
                        None => None,
                        Some((g, t)) => match char_at(s, skip_space(s, skip_space(s, g)), ';') {
                            Some(k) => Some((k, SCommand::Binding(SBinding::Declaration(v, t, mu)))),
                            None => None,
                        },
                    },
                },
            }
        },
    }
}

/// `let (x, mut y): (T, U);`
pub open spec fn binding_declaration_tuple(s: Seq<char>, i: int) -> Option<(int, SCommand)> {
    match let_start(s, i) {
        None => None,
        Some(a) => match let_tuple_left(s, a) {
            None => None,
            Some((b, left)) => match char_at(s, skip_space(s, b), ':') {
                None => None,
                Some(d) => match tuple_type(s, skip_space(s, d)) {
                    None => None,
                    Some((f, t)) => match char_at(s, skip_space(s, skip_space(s, f)), ';') {
                        Some(k) => Some(
                            (k, SCommand::Binding(SBinding::Tuple(zip_declarations(left, tuple_parts(t))))),
                        ),
                        None => None,
                    },
                },
            },
        },
    }
}

pub open spec fn binding(s: Seq<char>, i: int) -> Option<(int, SCommand)> {
    if binding_assignment_tuple_multiple(s, i) is Some {
        binding_assignment_tuple_multiple(s, i)
    } else if binding_assignment_tuple_single(s, i) is Some {
        binding_assignment_tuple_single(s, i)
    } else if binding_assignment(s, i) is Some {
        binding_assignment(s, i)
    } else if binding_declaration_tuple(s, i) is Some {
        binding_declaration_tuple(s, i)
    } else {
        binding_declaration(s, i)
    }
}

// ------------------------------------------------------------------
// Assignments
// ------------------------------------------------------------------
/// The `k`-th form of the right side of an assignment, with its `;`.
pub open spec fn assign_rhs(s: Seq<char>, i: int, k: int) -> Option<(int, SValue)> {
    let v = if k == 0 {
        array_content(s, i)
    } else if k == 1 {
        tuple_values(s, i)
    } else if k == 2 {
        bool_expr_val(s, i)
    } else if k == 3 {
        math_expr_val(s, i)
    } else if k == 4 {
        reference(s, i)
    } else if k == 5 {
        reference_mut(s, i)
    } else {
        dereference(s, i)
    };
    match v {
        None => None,
        Some((j, x)) => match tag(s, skip_space(s, j), ";"@) {
            Some(m) => Some((m, x)),
            None => None,
        },
    }
}

pub open spec fn assign_rhs_from(s: Seq<char>, i: int, k: int) -> Option<(int, SValue)>
    decreases 7 - k,
{
    if k < 0 || k >= 7 {
        None
    } else if assign_rhs(s, i, k) is Some {
        assign_rhs(s, i, k)
    } else {
        assign_rhs_from(s, i, k + 1)
    }
}

/// `x = value;`
pub open spec fn assignment_single(s: Seq<char>, i: int) -> Option<(int, SCommand)> {
    match variable(s, skip_space(s, i)) {
        None => None,
        Some((b, v)) => match tag(s, skip_space(s, b), "="@) {
            None => None,
            Some(d) => match assign_rhs_from(s, skip_space(s, d), 0) {
                Some((m, x)) => Some((m, SCommand::Assignment(SAssignment::Single(v, x)))),
                None => None,
            },
        },
    }
}

/// `(x, y) = (a, b);`
pub open spec fn assignment_tuple_unpack(s: Seq<char>, i: int) -> Option<(int, SCommand)> {
    match tuple_unpack_left(s, skip_space(s, i)) {
        None => None,
        Some((b, vars)) => match char_at(s, skip_space(s, b), '=') {
            None => None,
            Some(d) => match tuple_values(s, skip_space(s, d)) {
                None => None,
                Some((f, t)) => match char_at(s, skip_space(s, f), ';') {
                    Some(h) => Some(
                        (h, SCommand::Assignment(SAssignment::Tuple(zip_assignments(vars, value_parts(t))))),
                    ),
                    None => None,
                },
            },
        },
    }
}

/// `(x, y) = t;`: the elements of `t`.
pub open spec fn assignment_tuple_single(s: Seq<char>, i: int) -> Option<(int, SCommand)> {
    match tuple_unpack_left(s, skip_space(s, i)) {
        None => None,
        Some((b, vars)) => match char_at(s, skip_space(s, b), '=') {
            None => None,
            Some(d) => match variable_single(s, skip_space(s, d)) {
                Some((f, SVariable::Named(name))) => match char_at(s, skip_space(s, f), ';') {
                    Some(h) => Some(
                        (h, SCommand::Assignment(
                            SAssignment::Tuple(zip_assignments(vars, tuple_elems(name, vars.len()))),
                        )),
                    ),
                    None => None,
                },
                _ => None,
            },
        },
    }
}

pub open spec fn assignment(s: Seq<char>, i: int) -> Option<(int, SCommand)> {
    if assignment_tuple_unpack(s, i) is Some {
        assignment_tuple_unpack(s, i)
    } else if assignment_tuple_single(s, i) is Some {
        assignment_tuple_single(s, i)
    } else {
        assignment_single(s, i)
    }
}

pub open spec fn prove_control(s: Seq<char>, i: int) -> Option<(int, SCommand)> {
    match annotation(s, i, "assert"@) {
        Some((j, e)) => Some((j, SCommand::ProveControl(SProveControl::Assert(e)))),
        None => None,
    }
}

// ------------------------------------------------------------------
// Commands and blocks
// ------------------------------------------------------------------
pub open spec fn command(s: Seq<char>, i: int) -> Option<(int, SCommand)>
    decreases s.len() - i, 3int,
{
    if binding(s, i) is Some {
        binding(s, i)
    } else if prove_control(s, i) is Some {
        prove_control(s, i)
    } else if assignment(s, i) is Some {
        assignment(s, i)
    } else if if_else(s, i) is Some {
        if_else(s, i)
    } else if while_parse(s, i) is Some {
        while_parse(s, i)
    } else {
        for_parse(s, i)
    }
}

/// `if cond { block }`
pub open spec fn single_if(s: Seq<char>, i: int) -> Option<(int, (SBool, Seq<SCommand>))>
    decreases s.len() - i, 1int,
{
    match tag(s, i, "if"@) {
        None => None,
        Some(a) => match bool_expr(s, skip_space(s, a)) {
            None => None,
            Some((c, cond)) => match tag(s, skip_space(s, c), "{"@) {
                None => None,
                Some(e) => if !fwd(s, i, e) {
                    None
                } else {
                    let (f, body) = block(s, e);
                    if !after(s, e, f) {
                        None
                    } else {
                        match tag(s, f, "}"@) {
                            Some(g) => Some((skip_space(s, g), (cond, body))),
                            None => None,
                        }
                    }
                },
            },
        },
    }
}

/// `else if cond { block }` as long as there is one.
pub open spec fn else_ifs(s: Seq<char>, i: int, conds: Seq<SBool>, bodies: Seq<Seq<SCommand>>) -> (
    int,
    (Seq<SBool>, Seq<Seq<SCommand>>),
)
    decreases s.len() - i, 2int,
{
    match tag(s, skip_space(s, i), "else"@) {
        None => (i, (conds, bodies)),
        Some(b) => {
            let c = skip_space(s, b);
            if !fwd(s, i, c) {
                (i, (conds, bodies))
            } else {
                match single_if(s, c) {
                    Some((d, (cond, body))) => if fwd(s, i, d) {
                        else_ifs(s, d, conds.push(cond), bodies.push(body))
                    } else {
                        (i, (conds, bodies))
                    },
                    None => (i, (conds, bodies)),
                }
            }
        },
    }
}

/// `else { block }`
pub open spec fn else_block(s: Seq<char>, i: int) -> Option<(int, Seq<SCommand>)>
    decreases s.len() - i, 2int,
{
    match tag(s, skip_space(s, i), "else"@) {
        None => None,
        Some(b) => match tag(s, skip_space(s, b), "{"@) {
            None => None,
            Some(d) => {
                let e = skip_space(s, d);
                if !fwd(s, i, e) {
                    None
                } else {
                    let (f, body) = block(s, e);
                    if !after(s, e, f) {
                        None
                    } else {
                        match tag(s, skip_space(s, f), "}"@) {
                            Some(h) => Some((h, body)),
                            None => None,
                        }
                    }
                }
            },
        },
    }
}

/// `if ... else if ... else ...`
pub open spec fn if_else(s: Seq<char>, i: int) -> Option<(int, SCommand)>
    decreases s.len() - i, 2int,
{
    match single_if(s, i) {
        None => None,
        Some((a, (cond, body))) => if !fwd(s, i, a) {
            None
        } else {
            let (b, (conds, bodies)) = else_ifs(s, a, seq![cond], seq![body]);
            if !after(s, a, b) {
                None
            } else {
                let (e, el) = match else_block(s, b) {
                    Some((e, el)) => (e, el),
                    None => (b, seq![]),
                };
                Some((e, SCommand::Block(SBlock::If(conds, bodies, el))))
            }
        },
    }
}

/// The invariant, an optional variant, `while cond { block }`.
pub open spec fn while_parse(s: Seq<char>, i: int) -> Option<(int, SCommand)>
    decreases s.len() - i, 1int,
{
    match annotation(s, i, "invariant"@) {
        None => None,
        Some((a, inv)) => {
            let a1 = skip_space(s, a);
            let (a2, var) = match variant(s, a1) {
                Some((p, e)) => (skip_space(s, p), Some(e)),
                None => (a1, None),
            };
            match tag(s, a2, "while"@) {
                None => None,
                Some(c) => match space1(s, c) {
                    None => None,
                    Some(d) => match bool_expr(s, d) {
                        None => None,
                        Some((e, cond)) => match tag(s, skip_space(s, e), "{"@) {
                            None => None,
                            Some(g) => {
                                let h = skip_multispace(s, g);
                                if !fwd(s, i, h) {
                                    None
                                } else {
                                    let (k, body) = block(s, h);
                                    if !after(s, h, k) {
                                        None
                                    } else {
                                        match tag(s, skip_multispace(s, k), "}"@) {
                                            Some(n) => Some(
                                                (n, SCommand::Block(SBlock::While(cond, body, inv, var))),
                                            ),
                                            None => None,
                                        }
                                    }
                                }
                            },
                        },
                    },
                },
            }
        },
    }
}

/// The invariant, `for i in first..last { block }`.
pub open spec fn for_parse(s: Seq<char>, i: int) -> Option<(int, SCommand)>
    decreases s.len() - i, 1int,
{
    match annotation(s, i, "invariant"@) {
        None => None,
        Some((a, inv)) => match tag(s, skip_space(s, a), "for"@) {
            None => None,
            Some(c) => match space1(s, c) {
                None => None,
                Some(d) => match variable_single(s, d) {
                    None => None,
                    Some((e, it)) => match space1(s, e) {
                        None => None,
                        Some(f) => match tag(s, f, "in"@) {
                            None => None,
                            Some(g) => match space1(s, g) {
                                None => None,
                                Some(h) => match r_value(s, h) {
                                    None => None,
                                    Some((k, first)) => match tag(s, skip_space(s, k), ".."@) {
                                        None => None,
                                        Some(m) => match r_value(s, skip_space(s, m)) {
                                            None => None,
                                            Some((n, last)) => match tag(s, skip_space(s, n), "{"@) {
                                                None => None,
                                                Some(p) => {
                                                    let q = skip_multispace(s, p);
                                                    if !fwd(s, i, q) {
                                                        None
                                                    } else {
                                                        let (r, body) = block(s, q);
                                                        if !after(s, q, r) {
                                                            None
                                                        } else {
                                                            match tag(s, skip_multispace(s, r), "}"@) {
                                                                Some(t) => Some(
                                                                    (t, SCommand::Block(
                                                                        SBlock::ForRange(it, first, last, body, inv),
                                                                    )),
                                                                ),
                                                                None => None,
                                                            }
                                                        }
                                                    }
                                                },
                                            },
                                        },
                                    },
                                },
                            },
                        },
                    },
                },
            },
        },
    }
}

/// A `//%debug` comment: the mark, the end of the line, one line of text.
pub open spec fn debug_comment(s: Seq<char>, i: int) -> Option<int>
    decreases s.len() - i, 4int,
{
    if command(s, i) is Some {
        None
    } else {
        match tag(s, i, "//%debug"@) {
            None => None,
            Some(b) => match char_at(s, b, '\n') {
                None => None,
                Some(c) => {
                    let d = skip_line(s, c);
                    if d <= c {
                        None
                    } else {
                        match char_at(s, d, '\n') {
                            Some(e) => Some(e),
                            None => Some(d),
                        }
                    }
                },
            },
        }
    }
}

/// A `//` comment that is not an annotation, with some text.
pub open spec fn single_comment(s: Seq<char>, i: int) -> Option<int>
    decreases s.len() - i, 4int,
{
    if command(s, i) is Some || tag(s, i, "//%"@) is Some {
        None
    } else {
        match tag(s, i, "//"@) {
            None => None,
            Some(a) => {
                let b = skip_line(s, a);
                if b <= a {
                    None
                } else {
                    match char_at(s, b, '\n') {
                        Some(c) => Some(c),
                        None => Some(b),
                    }
                }
            },
        }
    }
}

/// A `/* */` comment.
pub open spec fn multiline_comment(s: Seq<char>, i: int) -> Option<int>
    decreases s.len() - i, 4int,
{
    if command(s, i) is Some {
        None
    } else {
        match tag(s, i, "/*"@) {
            None => None,
            Some(a) => match find_close(s, a) {
                Some(b) => Some(b + 2),
                None => None,
            },
        }
    }
}

/// A comment between blanks.
pub open spec fn comment_item(s: Seq<char>, i: int) -> Option<int>
    decreases s.len() - i, 5int,
{
    let a = skip_multispace(s, i);
    if !after(s, i, a) {
        None
    } else {
        let b = if debug_comment(s, a) is Some {
            debug_comment(s, a)
        } else if single_comment(s, a) is Some {
            single_comment(s, a)
        } else {
            multiline_comment(s, a)
        };
        match b {
            Some(b) => Some(skip_multispace(s, b)),
            None => None,
        }
    }
}

/// Comments as long as there are some.
pub open spec fn comments(s: Seq<char>, i: int) -> int
    decreases s.len() - i, 6int,
{
    match comment_item(s, i) {
        Some(j) => if fwd(s, i, j) {
            comments(s, j)
        } else {
            i
        },
        None => i,
    }
}

/// A command between comments and blanks.
pub open spec fn block_item(s: Seq<char>, i: int) -> Option<(int, SCommand)>
    decreases s.len() - i, 7int,
{
    let a = comments(s, i);
    if !after(s, i, a) {
        None
    } else {
        let b = skip_multispace(s, a);
        if !after(s, i, b) {
            None
        } else {
            match command(s, b) {
                None => None,
                Some((c, cmd)) => {
                    let d = skip_multispace(s, c);
                    if !after(s, i, d) {
                        None
                    } else {
                        Some((comments(s, d), cmd))
                    }
                },
            }
        }
    }
}

pub open spec fn block_items(s: Seq<char>, i: int, acc: Seq<SCommand>) -> (int, Seq<SCommand>)
    decreases s.len() - i, 8int,
{
    match block_item(s, i) {
        Some((j, c)) => if fwd(s, i, j) {
            block_items(s, j, acc.push(c))
        } else {
            (i, acc)
        },
        None => (i, acc),
    }
}

/// The commands of a block, as many as read.
pub open spec fn block(s: Seq<char>, i: int) -> (int, Seq<SCommand>)
    decreases s.len() - i, 9int,
{
    block_items(s, i, seq![])
}

// ------------------------------------------------------------------
// Functions and programs
// ------------------------------------------------------------------
/// `x == x'old` for each integer parameter `x`, added to the
/// precondition: the postcondition may speak of the values that the
/// parameters had on entry.
pub open spec fn with_old_values(pre: SBool, inputs: Seq<SBinding>) -> SBool
    decreases inputs.len(),
{
    if inputs.len() == 0 {
        pre
    } else {
        let p = with_old_values(pre, inputs.drop_last());
        match inputs.last() {
            SBinding::Declaration(SVariable::Named(x), SType::I32, _) => SBool::And(
                Box::new(p),
                Box::new(
                    SBool::Equal(
                        SExpr::Value(Box::new(SValue::Variable(SVariable::Named(x)))),
                        SExpr::Value(Box::new(SValue::Variable(SVariable::Named(x + "'old"@)))),
                    ),
                ),
            ),
            _ => p,
        }
    }
}

/// The annotations, `fn name(parameters) -> type { block value }`.
pub open spec fn function(s: Seq<char>, i: int) -> Option<(int, SFunction)> {
    let (a, pre) = match annotation(s, i, "precondition"@) {
        Some((a, p)) => (a, p),
        None => (i, SBool::True),
    };
    let b = skip_multispace(s, a);
    let (c, post) = match annotation(s, b, "postcondition"@) {
        Some((c, p)) => (c, p),
        None => (b, SBool::True),
    };
    match tag(s, skip_multispace(s, c), "fn"@) {
        None => None,
        Some(e) => match space1(s, e) {
            None => None,
            Some(f) => match function_name(s, f) {
                None => None,
                Some((g, name)) => match tag(s, skip_space(s, g), "("@) {
                    None => None,
                    Some(k) => {
                        let (n, ins) = function_inputs(s, skip_space(s, k));
                        match tag(s, skip_space(s, n), ")"@) {
                            None => None,
                            Some(q) => {
                                let r = skip_space(s, q);
                                let (t, out) = match tag(s, r, "->"@) {
                                    Some(r1) => match type_def(s, skip_space(s, r1)) {
                                        Some((t, o)) => (t, o),
                                        None => (r, SType::Unit),
                                    },
                                    None => (r, SType::Unit),
                                };
                                match tag(s, skip_space(s, t), "{"@) {
                                    None => None,
                                    Some(v) => {
                                        let (x, cmds) = block(s, skip_space(s, v));
                                        let y = skip_multispace(s, x);
                                        let (z, rv) = match r_value(s, y) {
                                            Some((z, rv)) => (z, rv),
                                            None => (y, SValue::Unit),
                                        };
                                        match tag(s, skip_multispace(s, z), "}"@) {
                                            None => None,
                                            Some(bb) => Some(
                                                (skip_multispace(s, bb), SFunction {
                                                    name: name,
                                                    content: cmds,
                                                    input: ins,
                                                    output: out,
                                                    precondition: with_old_values(pre, ins),
                                                    postcondition: post,
                                                    return_value: rv,
                                                }),
                                            ),
                                        }
                                    },
                                }
                            },
                        }
                    },
                },
            },
        },
    }
}

pub open spec fn functions_rest(s: Seq<char>, i: int, acc: Seq<SFunction>) -> (int, Seq<SFunction>)
    decreases s.len() - i,
{
    match function(s, i) {
        Some((j, f)) => if fwd(s, i, j) {
            functions_rest(s, j, acc.push(f))
        } else {
            (i, acc)
        },
        None => (i, acc),
    }
}

/// One function or more.
pub open spec fn program(s: Seq<char>, i: int) -> Option<(int, SProgram)> {
    match function(s, i) {
        None => None,
        Some((j, f)) => if fwd(s, i, j) {
            let (k, fs) = functions_rest(s, j, seq![f]);
            Some((k, SProgram { content: fs }))
        } else {
            Some((j, SProgram { content: seq![f] }))
        },
    }
}

} // verus!
