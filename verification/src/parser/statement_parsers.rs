//! The parsers of annotations, types, bindings, assignments, commands and
//! functions, each proved to read exactly what its rule in `statements`
//! says.
use vstd::prelude::*;
use crate::ast::{
    Assignment, Binding, Block, Bool, Command, Expr, Function, Program, ProveControl, SAssignment,
    SBinding, SBlock, SBool, SCommand, SExpr, SFunction, SProgram, SProveControl, SType, SValue,
    SVariable, Type, Value, Variable, m_assign, m_binding, m_cmd, m_cmds, m_func, m_type, m_value,
    m_values, m_vars,
};
use crate::copying::{copy_string, copy_type, copy_value, copy_var};
use crate::parser::lexical::{
    Source, after, char_at, char_at_exec, find_close_at, function_name_at, line_end,
    multispace0_at, number_at, pos_of_opt, skip_space, space0_at, space1, space1_at, tag, tag_at,
};
use crate::parser::statements::{
    annotation, array_slice_type, array_type, assign_rhs, assign_rhs_from, assignment,
    assignment_single, assignment_tuple_single, assignment_tuple_unpack, binding,
    binding_assignment, binding_assignment_tuple_multiple, binding_assignment_tuple_single,
    binding_declaration, binding_declaration_tuple, block, block_item, block_items, command,
    comment_item, comments, debug_comment, else_block, else_ifs, for_parse, function,
    function_input, function_inputs, functions_rest, if_else, inputs_rest, let_elem, let_rest,
    let_start, let_tuple_left, multiline_comment, mut_prefix, opt_mut, program, prove_control,
    single_comment, single_if, tuple_binding_rhs, tuple_elems, tuple_parts, tuple_type,
    tuple_unpack_left, type_def, type_def_function, type_def_single, type_rest, typed_rhs,
    typed_rhs_from, unpack_rest, value_parts, var_or_empty, variant, while_parse,
    with_old_values, zip_assignments, zip_bindings, zip_declarations, min2,
};
use crate::parser::term_parsers::{
    array_content_at, bool_expr_at, bool_expr_val_at, bool_view, dereference_at, ends, expr_view,
    math_expr_at, math_expr_val_at, r_value_at, reference_at, reference_mut_at, tuple_values_at,
    val_view, var_view, variable_at, variable_single_at,
};
use crate::parser::terms::fwd;

verus! {

pub open spec fn type_view(r: Option<(usize, Type)>) -> Option<(int, SType)> {
    match r {
        Some((j, t)) => Some((j as int, t@)),
        None => None,
    }
}

pub open spec fn cmd_view(r: Option<(usize, Command)>) -> Option<(int, SCommand)> {
    match r {
        Some((j, c)) => Some((j as int, c@)),
        None => None,
    }
}

pub open spec fn m_types(v: Seq<Type>) -> Seq<SType> {
    v.map_values(|t: Type| t@)
}

pub open spec fn m_left(v: Seq<(bool, Variable)>) -> Seq<(bool, SVariable)> {
    v.map_values(|p: (bool, Variable)| (p.0, p.1@))
}

pub open spec fn m_bindings(v: Seq<Binding>) -> Seq<SBinding> {
    v.map_values(|b: Binding| b@)
}

// ------------------------------------------------------------------
// Annotations
// ------------------------------------------------------------------
pub fn annotation_at(src: &Source, i: usize, word: &str) -> (r: Option<(usize, Bool)>)
    requires
        i <= src@.len(),
    ensures
        bool_view(r) == annotation(src@, i as int, word@),
        ends(r, src@, i as int),
{
    let a = match tag_at(src, i, "//%") {
        None => {
            return None;
        },
        Some(a) => a,
    };
    let b = match tag_at(src, a, word) {
        None => {
            return None;
        },
        Some(b) => b,
    };
    let c = match space1_at(src, b) {
        None => {
            return None;
        },
        Some(c) => c,
    };
    match bool_expr_at(src, c) {
        None => None,
        Some((d, e)) => match char_at_exec(src, d, '\n') {
            Some(f) => Some((f, e)),
            None => None,
        },
    }
}

pub fn variant_at(src: &Source, i: usize) -> (r: Option<(usize, Expr)>)
    requires
        i <= src@.len(),
    ensures
        expr_view(r) == variant(src@, i as int),
        ends(r, src@, i as int),
{
    let b = match tag_at(src, i, "//%variant") {
        None => {
            return None;
        },
        Some(b) => b,
    };
    let c = match space1_at(src, b) {
        None => {
            return None;
        },
        Some(c) => c,
    };
    match math_expr_at(src, c) {
        None => None,
        Some((d, e)) => match char_at_exec(src, d, '\n') {
            Some(f) => Some((f, e)),
            None => None,
        },
    }
}

// ------------------------------------------------------------------
// Types
// ------------------------------------------------------------------
pub fn type_def_single_at(src: &Source, i: usize) -> (r: Option<(usize, Type)>)
    requires
        i <= src@.len(),
    ensures
        type_view(r) == type_def_single(src@, i as int),
        ends(r, src@, i as int),
{
    match tag_at(src, i, "bool") {
        Some(j) => Some((j, Type::Bool)),
        None => match tag_at(src, i, "i32") {
            Some(j) => Some((j, Type::I32)),
            None => None,
        },
    }
}

pub fn array_type_at(src: &Source, i: usize) -> (r: Option<(usize, Type)>)
    requires
        i <= src@.len(),
    ensures
        type_view(r) == array_type(src@, i as int),
        ends(r, src@, i as int),
{
    let a = match char_at_exec(src, i, '[') {
        None => {
            return None;
        },
        Some(a) => a,
    };
    let a2 = space0_at(src, a);
    let (c, t) = match type_def_single_at(src, a2) {
        None => {
            return None;
        },
        Some(x) => x,
    };
    let c2 = space0_at(src, c);
    let e = match char_at_exec(src, c2, ';') {
        None => {
            return None;
        },
        Some(e) => e,
    };
    let e2 = space0_at(src, e);
    let (g, n) = match number_at(src, e2) {
        None => {
            return None;
        },
        Some(x) => x,
    };
    let g2 = space0_at(src, g);
    match char_at_exec(src, g2, ']') {
        Some(k) => Some((k, Type::Array(Box::new(t), n))),
        None => None,
    }
}

pub fn array_slice_type_at(src: &Source, i: usize) -> (r: Option<(usize, Type)>)
    requires
        i <= src@.len(),
    ensures
        type_view(r) == array_slice_type(src@, i as int),
        ends(r, src@, i as int),
{
    let a = match char_at_exec(src, i, '&') {
        None => {
            return None;
        },
        Some(a) => a,
    };
    let a2 = space0_at(src, a);
    let b = match char_at_exec(src, a2, '[') {
        None => {
            return None;
        },
        Some(b) => b,
    };
    let b2 = space0_at(src, b);
    let (c, t) = match type_def_single_at(src, b2) {
        None => {
            return None;
        },
        Some(x) => x,
    };
    let c2 = space0_at(src, c);
    match char_at_exec(src, c2, ']') {
        Some(d) => Some((d, Type::ArraySlice(Box::new(t)))),
        None => None,
    }
}

#[verifier::loop_isolation(false)]
pub fn type_rest_at(src: &Source, i: usize, acc: Vec<Type>) -> (r: (usize, Vec<Type>))
    requires
        i <= src@.len(),
    ensures
        (r.0 as int, m_types(r.1@)) == type_rest(src@, i as int, m_types(acc@)),
        i <= r.0 <= src@.len(),
{
    let ghost target = type_rest(src@, i as int, m_types(acc@));
    let mut i2 = i;
    let mut acc = acc;
    loop
        invariant
            i <= i2 <= src@.len(),
            type_rest(src@, i2 as int, m_types(acc@)) == target,
        decreases src@.len() - i2,
    {
        let a = match char_at_exec(src, i2, ',') {
            None => {
                return (i2, acc);
            },
            Some(a) => a,
        };
        let a2 = space0_at(src, a);
        match type_def_single_at(src, a2) {
            None => {
                return (i2, acc);
            },
            Some((c, t)) => {
                let d = space0_at(src, c);
                if i2 < d && d <= src.len() {
                    let ghost old_acc = acc@;
                    acc.push(t);
                    assert(m_types(acc@) =~= m_types(old_acc).push(t@));
                    i2 = d;
                } else {
                    return (i2, acc);
                }
            },
        }
    }
}

pub fn tuple_type_at(src: &Source, i: usize) -> (r: Option<(usize, Type)>)
    requires
        i <= src@.len(),
    ensures
        type_view(r) == tuple_type(src@, i as int),
        ends(r, src@, i as int),
{
    let a = match tag_at(src, i, "(") {
        None => {
            return None;
        },
        Some(a) => a,
    };
    let a2 = space0_at(src, a);
    let (c, first) = match type_def_single_at(src, a2) {
        None => {
            return None;
        },
        Some(x) => x,
    };
    let c2 = space0_at(src, c);
    let e = match char_at_exec(src, c2, ',') {
        None => {
            return None;
        },
        Some(e) => e,
    };
    let g = space0_at(src, e);
    let mut types: Vec<Type> = Vec::new();
    let ghost fv = first@;
    types.push(first);
    let h = match type_def_single_at(src, g) {
        Some((h, t)) => {
            types.push(t);
            h
        },
        None => g,
    };
    let ghost head = m_types(types@);
    let h2 = space0_at(src, h);
    let (m, rest) = type_rest_at(src, h2, Vec::new());
    assert(m_types(Seq::<Type>::empty()) =~= Seq::<SType>::empty());
    let m2 = space0_at(src, m);
    match tag_at(src, m2, ")") {
        Some(p) => {
            let mut rest = rest;
            let ghost rv = m_types(rest@);
            types.append(&mut rest);
            proof {
                match type_def_single(src@, g as int) {
                    Some((hh, tt)) => {
                        assert(head =~= seq![fv] + seq![tt]);
                    },
                    None => {
                        assert(head =~= seq![fv] + Seq::<SType>::empty());
                    },
                }
                assert(m_types(types@) =~= head + rv);
            }
            let ghost tv = types@;
            let res = Type::Tuple(types);
            proof {
                assert(res@->Tuple_0 =~= m_types(tv));
            }
            Some((p, res))
        },
        None => None,
    }
}

pub fn type_def_at(src: &Source, i: usize) -> (r: Option<(usize, Type)>)
    requires
        i <= src@.len(),
    ensures
        type_view(r) == type_def(src@, i as int),
        ends(r, src@, i as int),
{
    let (j, refk): (usize, u8) = match tag_at(src, i, "&mut") {
        Some(p) => (space0_at(src, p), 2),
        None => match tag_at(src, i, "&") {
            Some(p) => (space0_at(src, p), 1),
            None => (i, 0),
        },
    };
    let base = match array_type_at(src, j) {
        Some(r) => Some(r),
        None => match tuple_type_at(src, j) {
            Some(r) => Some(r),
            None => type_def_single_at(src, j),
        },
    };
    match base {
        None => None,
        Some((k, t)) => {
            if refk == 2 {
                Some((k, Type::ReferenceMutable(Box::new(t))))
            } else if refk == 1 {
                Some((k, Type::Reference(Box::new(t))))
            } else {
                Some((k, t))
            }
        },
    }
}

pub fn type_def_function_at(src: &Source, i: usize) -> (r: Option<(usize, Type)>)
    requires
        i <= src@.len(),
    ensures
        type_view(r) == type_def_function(src@, i as int),
        ends(r, src@, i as int),
{
    match array_slice_type_at(src, i) {
        Some(r) => Some(r),
        None => type_def_at(src, i),
    }
}

// ------------------------------------------------------------------
// Parameters
// ------------------------------------------------------------------
pub fn opt_mut_at(src: &Source, i: usize) -> (r: (bool, usize))
    requires
        i <= src@.len(),
    ensures
        (r.0, r.1 as int) == opt_mut(src@, i as int),
        i <= r.1 <= src@.len(),
{
    match tag_at(src, i, "mut") {
        Some(a) => match space1_at(src, a) {
            Some(b) => (true, b),
            None => (false, i),
        },
        None => (false, i),
    }
}

pub fn function_input_at(src: &Source, i: usize) -> (r: Option<(usize, Binding)>)
    requires
        i <= src@.len(),
    ensures
        match r {
            Some((j, b)) => function_input(src@, i as int) == Some((j as int, b@)),
            None => function_input(src@, i as int) is None,
        },
        ends(r, src@, i as int),
{
    let a = space0_at(src, i);
    let (mu, b) = opt_mut_at(src, a);
    let (c, v) = match variable_at(src, b) {
        None => {
            return None;
        },
        Some(x) => x,
    };
    let c2 = space0_at(src, c);
    let e = match char_at_exec(src, c2, ':') {
        None => {
            return None;
        },
        Some(e) => e,
    };
    let e2 = space0_at(src, e);
    match type_def_function_at(src, e2) {
        None => None,
        Some((g, t)) => Some((space0_at(src, g), Binding::Declaration(v, t, mu))),
    }
}

#[verifier::loop_isolation(false)]
pub fn inputs_rest_at(src: &Source, i: usize, acc: Vec<Binding>) -> (r: (usize, Vec<Binding>))
    requires
        i <= src@.len(),
    ensures
        (r.0 as int, m_bindings(r.1@)) == inputs_rest(src@, i as int, m_bindings(acc@)),
        i <= r.0 <= src@.len(),
{
    let ghost target = inputs_rest(src@, i as int, m_bindings(acc@));
    let mut i2 = i;
    let mut acc = acc;
    loop
        invariant
            i <= i2 <= src@.len(),
            inputs_rest(src@, i2 as int, m_bindings(acc@)) == target,
        decreases src@.len() - i2,
    {
        let a = match char_at_exec(src, i2, ',') {
            None => {
                return (i2, acc);
            },
            Some(a) => a,
        };
        match function_input_at(src, a) {
            Some((b, x)) => {
                if i2 < b && b <= src.len() {
                    let ghost old_acc = acc@;
                    acc.push(x);
                    assert(m_bindings(acc@) =~= m_bindings(old_acc).push(x@));
                    i2 = b;
                } else {
                    return (i2, acc);
                }
            },
            None => {
                return (i2, acc);
            },
        }
    }
}

pub fn function_inputs_at(src: &Source, i: usize) -> (r: (usize, Vec<Binding>))
    requires
        i <= src@.len(),
    ensures
        (r.0 as int, m_bindings(r.1@)) == function_inputs(src@, i as int),
        i <= r.0 <= src@.len(),
{
    assert(m_bindings(Seq::<Binding>::empty()) =~= Seq::<SBinding>::empty());
    match function_input_at(src, i) {
        Some((j, b)) => {
            if i < j && j <= src.len() {
                let mut acc: Vec<Binding> = Vec::new();
                let ghost bv = b@;
                acc.push(b);
                assert(m_bindings(acc@) =~= seq![bv]);
                inputs_rest_at(src, j, acc)
            } else {
                (i, Vec::new())
            }
        },
        None => (i, Vec::new()),
    }
}

// ------------------------------------------------------------------
// Left sides of tuple bindings and assignments
// ------------------------------------------------------------------
pub fn var_or_empty_at(src: &Source, i: usize) -> (r: Option<(usize, Variable)>)
    requires
        i <= src@.len(),
    ensures
        var_view(r) == var_or_empty(src@, i as int),
        ends(r, src@, i as int),
{
    match variable_at(src, i) {
        Some(r) => Some(r),
        None => match tag_at(src, i, "_") {
            Some(j) => Some((j, Variable::Empty)),
            None => None,
        },
    }
}

pub fn let_elem_at(src: &Source, i: usize) -> (r: Option<(usize, (bool, Variable))>)
    requires
        i <= src@.len(),
    ensures
        match r {
            Some((j, (m, v))) => let_elem(src@, i as int) == Some((j as int, (m, v@))),
            None => let_elem(src@, i as int) is None,
        },
        ends(r, src@, i as int),
{
    let (mu, a) = opt_mut_at(src, i);
    match var_or_empty_at(src, a) {
        Some((b, v)) => Some((b, (mu, v))),
        None => None,
    }
}

#[verifier::loop_isolation(false)]
pub fn let_rest_at(src: &Source, i: usize, acc: Vec<(bool, Variable)>) -> (r: (usize, Vec<(bool, Variable)>))
    requires
        i <= src@.len(),
    ensures
        (r.0 as int, m_left(r.1@)) == let_rest(src@, i as int, m_left(acc@)),
        i <= r.0 <= src@.len(),
{
    let ghost target = let_rest(src@, i as int, m_left(acc@));
    let mut i2 = i;
    let mut acc = acc;
    loop
        invariant
            i <= i2 <= src@.len(),
            let_rest(src@, i2 as int, m_left(acc@)) == target,
        decreases src@.len() - i2,
    {
        let a = match char_at_exec(src, i2, ',') {
            None => {
                return (i2, acc);
            },
            Some(a) => a,
        };
        let a2 = space0_at(src, a);
        match let_elem_at(src, a2) {
            None => {
                return (i2, acc);
            },
            Some((c, x)) => {
                let d = space0_at(src, c);
                if i2 < d && d <= src.len() {
                    let ghost old_acc = acc@;
                    acc.push(x);
                    assert(m_left(acc@) =~= m_left(old_acc).push((x.0, x.1@)));
                    i2 = d;
                } else {
                    return (i2, acc);
                }
            },
        }
    }
}

pub fn let_tuple_left_at(src: &Source, i: usize) -> (r: Option<(usize, Vec<(bool, Variable)>)>)
    requires
        i <= src@.len(),
    ensures
        match r {
            Some((j, v)) => let_tuple_left(src@, i as int) == Some((j as int, m_left(v@))),
            None => let_tuple_left(src@, i as int) is None,
        },
        ends(r, src@, i as int),
{
    let a = match tag_at(src, i, "(") {
        None => {
            return None;
        },
        Some(a) => a,
    };
    let a2 = space0_at(src, a);
    let (c, first) = match let_elem_at(src, a2) {
        None => {
            return None;
        },
        Some(x) => x,
    };
    let c2 = space0_at(src, c);
    let e = match char_at_exec(src, c2, ',') {
        None => {
            return None;
        },
        Some(e) => e,
    };
    let f = space0_at(src, e);
    let mut left: Vec<(bool, Variable)> = Vec::new();
    let ghost fv = (first.0, first.1@);
    left.push(first);
    let g = match let_elem_at(src, f) {
        Some((g, x)) => {
            left.push(x);
            g
        },
        None => f,
    };
    let ghost head = m_left(left@);
    let g2 = space0_at(src, g);
    let (m, rest) = let_rest_at(src, g2, Vec::new());
    assert(m_left(Seq::<(bool, Variable)>::empty()) =~= Seq::<(bool, SVariable)>::empty());
    let m2 = space0_at(src, m);
    match tag_at(src, m2, ")") {
        Some(p) => {
            let mut rest = rest;
            let ghost rv = m_left(rest@);
            left.append(&mut rest);
            proof {
                match let_elem(src@, f as int) {
                    Some((gg, xx)) => {
                        assert(head =~= seq![fv] + seq![xx]);
                    },
                    None => {
                        assert(head =~= seq![fv] + Seq::<(bool, SVariable)>::empty());
                    },
                }
                assert(m_left(left@) =~= head + rv);
            }
            Some((p, left))
        },
        None => None,
    }
}

#[verifier::loop_isolation(false)]
pub fn unpack_rest_at(src: &Source, i: usize, acc: Vec<Variable>) -> (r: (usize, Vec<Variable>))
    requires
        i <= src@.len(),
    ensures
        (r.0 as int, m_vars(r.1@)) == unpack_rest(src@, i as int, m_vars(acc@)),
        i <= r.0 <= src@.len(),
{
    let ghost target = unpack_rest(src@, i as int, m_vars(acc@));
    let mut i2 = i;
    let mut acc = acc;
    loop
        invariant
            i <= i2 <= src@.len(),
            unpack_rest(src@, i2 as int, m_vars(acc@)) == target,
        decreases src@.len() - i2,
    {
        let a = match char_at_exec(src, i2, ',') {
            None => {
                return (i2, acc);
            },
            Some(a) => a,
        };
        let a2 = space0_at(src, a);
        match var_or_empty_at(src, a2) {
            None => {
                return (i2, acc);
            },
            Some((c, v)) => {
                let d = space0_at(src, c);
                if i2 < d && d <= src.len() {
                    let ghost old_acc = acc@;
                    acc.push(v);
                    assert(m_vars(acc@) =~= m_vars(old_acc).push(v@));
                    i2 = d;
                } else {
                    return (i2, acc);
                }
            },
        }
    }
}

pub fn tuple_unpack_left_at(src: &Source, i: usize) -> (r: Option<(usize, Vec<Variable>)>)
    requires
        i <= src@.len(),
    ensures
        match r {
            Some((j, v)) => tuple_unpack_left(src@, i as int) == Some((j as int, m_vars(v@))),
            None => tuple_unpack_left(src@, i as int) is None,
        },
        ends(r, src@, i as int),
{
    let a = match tag_at(src, i, "(") {
        None => {
            return None;
        },
        Some(a) => a,
    };
    let a2 = space0_at(src, a);
    let (c, first) = match var_or_empty_at(src, a2) {
        None => {
            return None;
        },
        Some(x) => x,
    };
    let c2 = space0_at(src, c);
    let e = match char_at_exec(src, c2, ',') {
        None => {
            return None;
        },
        Some(e) => e,
    };
    let f = space0_at(src, e);
    let mut vars: Vec<Variable> = Vec::new();
    let ghost fv = first@;
    vars.push(first);
    let g = match var_or_empty_at(src, f) {
        Some((g, v)) => {
            vars.push(v);
            g
        },
        None => f,
    };
    let ghost head = m_vars(vars@);
    let g2 = space0_at(src, g);
    let (m, rest) = unpack_rest_at(src, g2, Vec::new());
    assert(m_vars(Seq::<Variable>::empty()) =~= Seq::<SVariable>::empty());
    let m2 = space0_at(src, m);
    match tag_at(src, m2, ")") {
        Some(p) => {
            let mut rest = rest;
            let ghost rv = m_vars(rest@);
            vars.append(&mut rest);
            proof {
                match var_or_empty(src@, f as int) {
                    Some((gg, vv)) => {
                        assert(head =~= seq![fv] + seq![vv]);
                    },
                    None => {
                        assert(head =~= seq![fv] + Seq::<SVariable>::empty());
                    },
                }
                assert(m_vars(vars@) =~= head + rv);
            }
            Some((p, vars))
        },
        None => None,
    }
}

// ------------------------------------------------------------------
// Lists of bindings and assignments
// ------------------------------------------------------------------
pub fn tuple_elems_exec(name: &String, n: usize) -> (r: Vec<Value>)
    ensures
        m_values(r@) == tuple_elems(name@, n as nat),
{
    let mut res: Vec<Value> = Vec::new();
    let mut k: usize = 0;
    while k < n
        invariant
            k <= n,
            m_values(res@) == tuple_elems(name@, k as nat),
        decreases n - k,
    {
        let ki: i32 = #[verifier::truncate] (k as i32);
        let idx = Expr::Number(ki);
        assert(idx@ == SExpr::Number(k as i32));
        let iv = Value::Expr(idx);
        assert(iv@ == SValue::Expr(SExpr::Number(k as i32)));
        let el = Variable::TupleElem(copy_string(name), Box::new(iv));
        assert(el@ == SVariable::TupleElem(name@, Box::new(SValue::Expr(SExpr::Number(k as i32)))));
        let v = Value::Variable(el);
        let ghost old_res = res@;
        res.push(v);
        assert(m_values(res@) =~= tuple_elems(name@, (k + 1) as nat)) by {
            assert(m_values(res@) =~= m_values(old_res).push(v@));
        }
        k = k + 1;
    }
    res
}

pub fn zip_bindings_exec(left: &Vec<(bool, Variable)>, types: &Vec<Type>, vals: &Vec<Value>) -> (r: Vec<Command>)
    ensures
        m_cmds(r@) == zip_bindings(m_left(left@), m_types(types@), m_values(vals@)),
{
    let mut n = left.len();
    if types.len() < n {
        n = types.len();
    }
    if vals.len() < n {
        n = vals.len();
    }
    let ghost z = zip_bindings(m_left(left@), m_types(types@), m_values(vals@));
    assert(z.len() == n);
    let mut res: Vec<Command> = Vec::new();
    let mut k: usize = 0;
    while k < n
        invariant
            k <= n,
            n <= left.len(),
            n <= types.len(),
            n <= vals.len(),
            z == zip_bindings(m_left(left@), m_types(types@), m_values(vals@)),
            z.len() == n,
            m_cmds(res@) == z.take(k as int),
        decreases n - k,
    {
        let (m, v) = &left[k];
        let b = Binding::Assignment(copy_var(v), copy_type(&types[k]), copy_value(&vals[k]), *m);
        assert(b@ == SBinding::Assignment(v@, types@[k as int]@, vals@[k as int]@, *m));
        let c = Command::Binding(b);
        let ghost old_res = res@;
        res.push(c);
        assert(m_cmds(res@) =~= m_cmds(old_res).push(c@));
        assert(z.take(k + 1) =~= z.take(k as int).push(z[k as int]));
        k = k + 1;
    }
    assert(z.take(n as int) =~= z);
    res
}

pub fn zip_declarations_exec(left: &Vec<(bool, Variable)>, types: &Vec<Type>) -> (r: Vec<Command>)
    ensures
        m_cmds(r@) == zip_declarations(m_left(left@), m_types(types@)),
{
    let mut n = left.len();
    if types.len() < n {
        n = types.len();
    }
    let ghost z = zip_declarations(m_left(left@), m_types(types@));
    assert(z.len() == n);
    let mut res: Vec<Command> = Vec::new();
    let mut k: usize = 0;
    while k < n
        invariant
            k <= n,
            n <= left.len(),
            n <= types.len(),
            z == zip_declarations(m_left(left@), m_types(types@)),
            z.len() == n,
            m_cmds(res@) == z.take(k as int),
        decreases n - k,
    {
        let (m, v) = &left[k];
        let b = Binding::Declaration(copy_var(v), copy_type(&types[k]), *m);
        assert(b@ == SBinding::Declaration(v@, types@[k as int]@, *m));
        let c = Command::Binding(b);
        let ghost old_res = res@;
        res.push(c);
        assert(m_cmds(res@) =~= m_cmds(old_res).push(c@));
        assert(z.take(k + 1) =~= z.take(k as int).push(z[k as int]));
        k = k + 1;
    }
    assert(z.take(n as int) =~= z);
    res
}

pub open spec fn m_assigns(v: Seq<Assignment>) -> Seq<SAssignment> {
    v.map_values(|a: Assignment| a@)
}

pub fn zip_assignments_exec(vars: &Vec<Variable>, vals: &Vec<Value>) -> (r: Vec<Assignment>)
    ensures
        m_assigns(r@) == zip_assignments(m_vars(vars@), m_values(vals@)),
{
    let mut n = vars.len();
    if vals.len() < n {
        n = vals.len();
    }
    let ghost z = zip_assignments(m_vars(vars@), m_values(vals@));
    assert(z.len() == n);
    let mut res: Vec<Assignment> = Vec::new();
    let mut k: usize = 0;
    while k < n
        invariant
            k <= n,
            n <= vars.len(),
            n <= vals.len(),
            z == zip_assignments(m_vars(vars@), m_values(vals@)),
            z.len() == n,
            m_assigns(res@) == z.take(k as int),
        decreases n - k,
    {
        let a = Assignment::Single(copy_var(&vars[k]), copy_value(&vals[k]));
        let ghost old_res = res@;
        res.push(a);
        assert(m_assigns(res@) =~= m_assigns(old_res).push(a@));
        assert(z.take(k + 1) =~= z.take(k as int).push(z[k as int]));
        k = k + 1;
    }
    assert(z.take(n as int) =~= z);
    res
}

pub fn value_into_parts(v: Value) -> (r: Vec<Value>)
    ensures
        m_values(r@) == value_parts(v@),
{
    match v {
        Value::Tuple(vs) => {
            assert(m_values(vs@) =~= value_parts(Value::Tuple(vs)@));
            vs
        },
        _ => {
            assert(m_values(Seq::<Value>::empty()) =~= Seq::<SValue>::empty());
            Vec::new()
        },
    }
}

pub fn type_into_parts(t: Type) -> (r: Vec<Type>)
    ensures
        m_types(r@) == tuple_parts(t@),
{
    match t {
        Type::Tuple(ts) => {
            assert(m_types(ts@) =~= tuple_parts(Type::Tuple(ts)@));
            ts
        },
        _ => {
            assert(m_types(Seq::<Type>::empty()) =~= Seq::<SType>::empty());
            Vec::new()
        },
    }
}

// ------------------------------------------------------------------
// Bindings
// ------------------------------------------------------------------
pub fn let_start_at(src: &Source, i: usize) -> (r: Option<usize>)
    requires
        i <= src@.len(),
    ensures
        pos_of_opt(r) == let_start(src@, i as int),
        r matches Some(j) ==> i <= j <= src@.len(),
{
    let a = space0_at(src, i);
    match tag_at(src, a, "let") {
        Some(b) => space1_at(src, b),
        None => None,
    }
}

fn binding_tuple_command(cmds: Vec<Command>) -> (r: Command)
    ensures
        r@ == SCommand::Binding(SBinding::Tuple(m_cmds(cmds@))),
{
    let ghost cv = cmds@;
    let b = Binding::Tuple(cmds);
    assert(b@->Tuple_0 =~= m_cmds(cv));
    Command::Binding(b)
}

pub fn tuple_binding_rhs_at(src: &Source, i: usize) -> (r: Option<(usize, (Vec<Type>, Vec<Value>))>)
    requires
        i <= src@.len(),
    ensures
        match r {
            Some((j, (ts, vs))) => tuple_binding_rhs(src@, i as int) == Some(
                (j as int, (m_types(ts@), m_values(vs@))),
            ),
            None => tuple_binding_rhs(src@, i as int) is None,
        },
        ends(r, src@, i as int),
{
    let i2 = space0_at(src, i);
    let d = match char_at_exec(src, i2, ':') {
        None => {
            return None;
        },
        Some(d) => d,
    };
    let d2 = space0_at(src, d);
    let (f, t) = match tuple_type_at(src, d2) {
        None => {
            return None;
        },
        Some(x) => x,
    };
    let f2 = space0_at(src, f);
    let f3 = space0_at(src, f2);
    let h = match char_at_exec(src, f3, '=') {
        None => {
            return None;
        },
        Some(h) => h,
    };
    let h2 = space0_at(src, h);
    let (m, v) = match tuple_values_at(src, h2) {
        None => {
            return None;
        },
        Some(x) => x,
    };
    let m2 = space0_at(src, m);
    match char_at_exec(src, m2, ';') {
        Some(p) => Some((p, (type_into_parts(t), value_into_parts(v)))),
        None => None,
    }
}

pub fn binding_assignment_tuple_multiple_at(src: &Source, i: usize) -> (r: Option<(usize, Command)>)
    requires
        i <= src@.len(),
    ensures
        cmd_view(r) == binding_assignment_tuple_multiple(src@, i as int),
        ends(r, src@, i as int),
{
    let a = match let_start_at(src, i) {
        None => {
            return None;
        },
        Some(a) => a,
    };
    let (b, left) = match let_tuple_left_at(src, a) {
        None => {
            return None;
        },
        Some(x) => x,
    };
    match tuple_binding_rhs_at(src, b) {
        None => None,
        Some((p, (types, vals))) => {
            let cmds = zip_bindings_exec(&left, &types, &vals);
            Some((p, binding_tuple_command(cmds)))
        },
    }
}

pub fn binding_assignment_tuple_single_at(src: &Source, i: usize) -> (r: Option<(usize, Command)>)
    requires
        i <= src@.len(),
    ensures
        cmd_view(r) == binding_assignment_tuple_single(src@, i as int),
        ends(r, src@, i as int),
{
    let a = match let_start_at(src, i) {
        None => {
            return None;
        },
        Some(a) => a,
    };
    let (b, left) = match let_tuple_left_at(src, a) {
        None => {
            return None;
        },
        Some(x) => x,
    };
    let b2 = space0_at(src, b);
    let d = match char_at_exec(src, b2, ':') {
        None => {
            return None;
        },
        Some(d) => d,
    };
    let d2 = space0_at(src, d);
    let (f, t) = match tuple_type_at(src, d2) {
        None => {
            return None;
        },
        Some(x) => x,
    };
    let f2 = space0_at(src, f);
    let f3 = space0_at(src, f2);
    let h = match char_at_exec(src, f3, '=') {
        None => {
            return None;
        },
        Some(h) => h,
    };
    let h2 = space0_at(src, h);
    let (m, v) = match variable_single_at(src, h2) {
        None => {
            return None;
        },
        Some(x) => x,
    };
    let name = match v {
        Variable::Named(name) => name,
        _ => {
            return None;
        },
    };
    let m2 = space0_at(src, m);
    match char_at_exec(src, m2, ';') {
        Some(p) => {
            let types = type_into_parts(t);
            let vals = tuple_elems_exec(&name, left.len());
            assert(m_left(left@).len() == left@.len());
            let cmds = zip_bindings_exec(&left, &types, &vals);
            Some((p, binding_tuple_command(cmds)))
        },
        None => None,
    }
}

pub fn typed_rhs_at(src: &Source, i: usize, k: usize) -> (r: Option<(usize, (Type, Value))>)
    requires
        i <= src@.len(),
        k < 4,
    ensures
        match r {
            Some((j, (t, v))) => typed_rhs(src@, i as int, k as int) == Some((j as int, (t@, v@))),
            None => typed_rhs(src@, i as int, k as int) is None,
        },
        ends(r, src@, i as int),
{
    let e = match char_at_exec(src, i, ':') {
        None => {
            return None;
        },
        Some(e) => e,
    };
    let f = space0_at(src, e);
    let ty = if k == 0 {
        array_type_at(src, f)
    } else if k == 1 {
        tuple_type_at(src, f)
    } else if k == 2 {
        match tag_at(src, f, "bool") {
            Some(j) => Some((j, Type::Bool)),
            None => None,
        }
    } else {
        match tag_at(src, f, "i32") {
            Some(j) => Some((j, Type::I32)),
            None => None,
        }
    };
    let (g, t) = match ty {
        None => {
            return None;
        },
        Some(x) => x,
    };
    let g2 = space0_at(src, g);
    let m = match char_at_exec(src, g2, '=') {
        None => {
            return None;
        },
        Some(m) => m,
    };
    let n = space0_at(src, m);
    let val = if k == 0 {
        array_content_at(src, n)
    } else if k == 1 {
        tuple_values_at(src, n)
    } else if k == 2 {
        bool_expr_val_at(src, n)
    } else {
        math_expr_val_at(src, n)
    };
    match val {
        None => None,
        Some((p, v)) => {
            let p2 = space0_at(src, p);
            match char_at_exec(src, p2, ';') {
                Some(r) => Some((r, (t, v))),
                None => None,
            }
        },
    }
}

pub fn typed_rhs_from_at(src: &Source, i: usize) -> (r: Option<(usize, (Type, Value))>)
    requires
        i <= src@.len(),
    ensures
        match r {
            Some((j, (t, v))) => typed_rhs_from(src@, i as int, 0) == Some((j as int, (t@, v@))),
            None => typed_rhs_from(src@, i as int, 0) is None,
        },
        ends(r, src@, i as int),
{
    let mut k: usize = 0;
    while k < 4
        invariant
            k <= 4,
            i <= src@.len(),
            typed_rhs_from(src@, i as int, 0) == typed_rhs_from(src@, i as int, k as int),
        decreases 4 - k,
    {
        let r = typed_rhs_at(src, i, k);
        if r.is_some() {
            return r;
        }
        k = k + 1;
    }
    None
}

pub fn binding_assignment_at(src: &Source, i: usize) -> (r: Option<(usize, Command)>)
    requires
        i <= src@.len(),
    ensures
        cmd_view(r) == binding_assignment(src@, i as int),
        ends(r, src@, i as int),
{
    let a = match let_start_at(src, i) {
        None => {
            return None;
        },
        Some(a) => a,
    };
    let (mu, b) = opt_mut_at(src, a);
    let (c, v) = match variable_at(src, b) {
        None => {
            return None;
        },
        Some(x) => x,
    };
    let c2 = space0_at(src, c);
    match typed_rhs_from_at(src, c2) {
        Some((r, (t, val))) => {
            let bnd = Binding::Assignment(v, t, val, mu);
            assert(bnd@ == SBinding::Assignment(v@, t@, val@, mu));
            Some((r, Command::Binding(bnd)))
        },
        None => None,
    }
}

pub fn binding_declaration_at(src: &Source, i: usize) -> (r: Option<(usize, Command)>)
    requires
        i <= src@.len(),
    ensures
        cmd_view(r) == binding_declaration(src@, i as int),
        ends(r, src@, i as int),
{
    let a = match let_start_at(src, i) {
        None => {
            return None;
        },
        Some(a) => a,
    };
    let (mu, b) = opt_mut_at(src, a);
    let (c, v) = match variable_at(src, b) {
        None => {
            return None;
        },
        Some(x) => x,
    };
    let c2 = space0_at(src, c);
    let e = match char_at_exec(src, c2, ':') {
        None => {
            return None;
        },
        Some(e) => e,
    };
    let e2 = space0_at(src, e);
    let (g, t) = match type_def_at(src, e2) {
        None => {
            return None;
        },
        Some(x) => x,
    };
    let g2 = space0_at(src, g);
    let g3 = space0_at(src, g2);
    match char_at_exec(src, g3, ';') {
        Some(k) => {
            let bnd = Binding::Declaration(v, t, mu);
            assert(bnd@ == SBinding::Declaration(v@, t@, mu));
            Some((k, Command::Binding(bnd)))
        },
        None => None,
    }
}

pub fn binding_declaration_tuple_at(src: &Source, i: usize) -> (r: Option<(usize, Command)>)
    requires
        i <= src@.len(),
    ensures
        cmd_view(r) == binding_declaration_tuple(src@, i as int),
        ends(r, src@, i as int),
{
    let a = match let_start_at(src, i) {
        None => {
            return None;
        },
        Some(a) => a,
    };
    let (b, left) = match let_tuple_left_at(src, a) {
        None => {
            return None;
        },
        Some(x) => x,
    };
    let b2 = space0_at(src, b);
    let d = match char_at_exec(src, b2, ':') {
        None => {
            return None;
        },
        Some(d) => d,
    };
    let d2 = space0_at(src, d);
    let (f, t) = match tuple_type_at(src, d2) {
        None => {
            return None;
        },
        Some(x) => x,
    };
    let f2 = space0_at(src, f);
    let f3 = space0_at(src, f2);
    match char_at_exec(src, f3, ';') {
        Some(k) => {
            let types = type_into_parts(t);
            let cmds = zip_declarations_exec(&left, &types);
            Some((k, binding_tuple_command(cmds)))
        },
        None => None,
    }
}

pub fn binding_at(src: &Source, i: usize) -> (r: Option<(usize, Command)>)
    requires
        i <= src@.len(),
    ensures
        cmd_view(r) == binding(src@, i as int),
        ends(r, src@, i as int),
{
    let a = binding_assignment_tuple_multiple_at(src, i);
    if a.is_some() {
        return a;
    }
    let b = binding_assignment_tuple_single_at(src, i);
    if b.is_some() {
        return b;
    }
    let c = binding_assignment_at(src, i);
    if c.is_some() {
        return c;
    }
    let d = binding_declaration_tuple_at(src, i);
    if d.is_some() {
        return d;
    }
    binding_declaration_at(src, i)
}

// ------------------------------------------------------------------
// Assignments
// ------------------------------------------------------------------
pub fn assign_rhs_at(src: &Source, i: usize, k: usize) -> (r: Option<(usize, Value)>)
    requires
        i <= src@.len(),
        k < 7,
    ensures
        val_view(r) == assign_rhs(src@, i as int, k as int),
        ends(r, src@, i as int),
{
    let v = if k == 0 {
        array_content_at(src, i)
    } else if k == 1 {
        tuple_values_at(src, i)
    } else if k == 2 {
        bool_expr_val_at(src, i)
    } else if k == 3 {
        math_expr_val_at(src, i)
    } else if k == 4 {
        reference_at(src, i)
    } else if k == 5 {
        reference_mut_at(src, i)
    } else {
        dereference_at(src, i)
    };
    match v {
        None => None,
        Some((j, x)) => {
            let j2 = space0_at(src, j);
            match tag_at(src, j2, ";") {
                Some(m) => Some((m, x)),
                None => None,
            }
        },
    }
}

pub fn assign_rhs_from_at(src: &Source, i: usize) -> (r: Option<(usize, Value)>)
    requires
        i <= src@.len(),
    ensures
        val_view(r) == assign_rhs_from(src@, i as int, 0),
        ends(r, src@, i as int),
{
    let mut k: usize = 0;
    while k < 7
        invariant
            k <= 7,
            i <= src@.len(),
            assign_rhs_from(src@, i as int, 0) == assign_rhs_from(src@, i as int, k as int),
        decreases 7 - k,
    {
        let r = assign_rhs_at(src, i, k);
        if r.is_some() {
            return r;
        }
        k = k + 1;
    }
    None
}

pub fn assignment_single_at(src: &Source, i: usize) -> (r: Option<(usize, Command)>)
    requires
        i <= src@.len(),
    ensures
        cmd_view(r) == assignment_single(src@, i as int),
        ends(r, src@, i as int),
{
    let a = space0_at(src, i);
    let (b, v) = match variable_at(src, a) {
        None => {
            return None;
        },
        Some(x) => x,
    };
    let b2 = space0_at(src, b);
    let d = match tag_at(src, b2, "=") {
        None => {
            return None;
        },
        Some(d) => d,
    };
    let d2 = space0_at(src, d);
    match assign_rhs_from_at(src, d2) {
        Some((m, x)) => {
            let asg = Assignment::Single(v, x);
            assert(asg@ == SAssignment::Single(v@, x@));
            Some((m, Command::Assignment(asg)))
        },
        None => None,
    }
}

fn tuple_assignment_command(parts: Vec<Assignment>) -> (r: Command)
    ensures
        r@ == SCommand::Assignment(SAssignment::Tuple(m_assigns(parts@))),
{
    let ghost pv = parts@;
    let a = Assignment::Tuple(parts);
    assert(a@->Tuple_0 =~= m_assigns(pv));
    Command::Assignment(a)
}

pub fn assignment_tuple_unpack_at(src: &Source, i: usize) -> (r: Option<(usize, Command)>)
    requires
        i <= src@.len(),
    ensures
        cmd_view(r) == assignment_tuple_unpack(src@, i as int),
        ends(r, src@, i as int),
{
    let a = space0_at(src, i);
    let (b, vars) = match tuple_unpack_left_at(src, a) {
        None => {
            return None;
        },
        Some(x) => x,
    };
    let b2 = space0_at(src, b);
    let d = match char_at_exec(src, b2, '=') {
        None => {
            return None;
        },
        Some(d) => d,
    };
    let d2 = space0_at(src, d);
    let (f, t) = match tuple_values_at(src, d2) {
        None => {
            return None;
        },
        Some(x) => x,
    };
    let f2 = space0_at(src, f);
    match char_at_exec(src, f2, ';') {
        Some(h) => {
            let vals = value_into_parts(t);
            let parts = zip_assignments_exec(&vars, &vals);
            Some((h, tuple_assignment_command(parts)))
        },
        None => None,
    }
}

pub fn assignment_tuple_single_at(src: &Source, i: usize) -> (r: Option<(usize, Command)>)
    requires
        i <= src@.len(),
    ensures
        cmd_view(r) == assignment_tuple_single(src@, i as int),
        ends(r, src@, i as int),
{
    let a = space0_at(src, i);
    let (b, vars) = match tuple_unpack_left_at(src, a) {
        None => {
            return None;
        },
        Some(x) => x,
    };
    let b2 = space0_at(src, b);
    let d = match char_at_exec(src, b2, '=') {
        None => {
            return None;
        },
        Some(d) => d,
    };
    let d2 = space0_at(src, d);
    let (f, v) = match variable_single_at(src, d2) {
        None => {
            return None;
        },
        Some(x) => x,
    };
    let name = match v {
        Variable::Named(name) => name,
        _ => {
            return None;
        },
    };
    let f2 = space0_at(src, f);
    match char_at_exec(src, f2, ';') {
        Some(h) => {
            let vals = tuple_elems_exec(&name, vars.len());
            assert(m_vars(vars@).len() == vars@.len());
            let parts = zip_assignments_exec(&vars, &vals);
            Some((h, tuple_assignment_command(parts)))
        },
        None => None,
    }
}

pub fn assignment_at(src: &Source, i: usize) -> (r: Option<(usize, Command)>)
    requires
        i <= src@.len(),
    ensures
        cmd_view(r) == assignment(src@, i as int),
        ends(r, src@, i as int),
{
    let a = assignment_tuple_unpack_at(src, i);
    if a.is_some() {
        return a;
    }
    let b = assignment_tuple_single_at(src, i);
    if b.is_some() {
        return b;
    }
    assignment_single_at(src, i)
}

pub fn prove_control_at(src: &Source, i: usize) -> (r: Option<(usize, Command)>)
    requires
        i <= src@.len(),
    ensures
        cmd_view(r) == prove_control(src@, i as int),
        ends(r, src@, i as int),
{
    match annotation_at(src, i, "assert") {
        Some((j, e)) => Some((j, Command::ProveControl(ProveControl::Assert(e)))),
        None => None,
    }
}

// ------------------------------------------------------------------
// Commands and blocks
// ------------------------------------------------------------------
pub open spec fn m_bodies(v: Seq<Vec<Command>>) -> Seq<Seq<SCommand>> {
    v.map_values(|b: Vec<Command>| m_cmds(b@))
}

pub open spec fn m_conds(v: Seq<Bool>) -> Seq<SBool> {
    v.map_values(|b: Bool| b@)
}

pub fn command_at(src: &Source, i: usize) -> (r: Option<(usize, Command)>)
    requires
        i <= src@.len(),
    ensures
        cmd_view(r) == command(src@, i as int),
        ends(r, src@, i as int),
    decreases src@.len() - i, 3int,
{
    let b = binding_at(src, i);
    if b.is_some() {
        return b;
    }
    let p = prove_control_at(src, i);
    if p.is_some() {
        return p;
    }
    let a = assignment_at(src, i);
    if a.is_some() {
        return a;
    }
    let f = if_else_at(src, i);
    if f.is_some() {
        return f;
    }
    let w = while_parse_at(src, i);
    if w.is_some() {
        return w;
    }
    for_parse_at(src, i)
}

pub fn single_if_at(src: &Source, i: usize) -> (r: Option<(usize, (Bool, Vec<Command>))>)
    requires
        i <= src@.len(),
    ensures
        match r {
            Some((j, (c, b))) => single_if(src@, i as int) == Some((j as int, (c@, m_cmds(b@)))),
            None => single_if(src@, i as int) is None,
        },
        ends(r, src@, i as int),
    decreases src@.len() - i, 1int,
{
    let a = match tag_at(src, i, "if") {
        None => {
            return None;
        },
        Some(a) => a,
    };
    let a2 = space0_at(src, a);
    let (c, cond) = match bool_expr_at(src, a2) {
        None => {
            return None;
        },
        Some(x) => x,
    };
    let c2 = space0_at(src, c);
    let e = match tag_at(src, c2, "{") {
        None => {
            return None;
        },
        Some(e) => e,
    };
    if !(i < e && e <= src.len()) {
        return None;
    }
    let (f, body) = block_at(src, e);
    if !(e <= f && f <= src.len()) {
        return None;
    }
    match tag_at(src, f, "}") {
        Some(g) => Some((space0_at(src, g), (cond, body))),
        None => None,
    }
}

#[verifier::loop_isolation(false)]
pub fn else_ifs_at(src: &Source, i: usize, conds: Vec<Bool>, bodies: Vec<Vec<Command>>) -> (r: (
    usize,
    (Vec<Bool>, Vec<Vec<Command>>),
))
    requires
        i <= src@.len(),
    ensures
        (r.0 as int, (m_conds(r.1.0@), m_bodies(r.1.1@))) == else_ifs(
            src@,
            i as int,
            m_conds(conds@),
            m_bodies(bodies@),
        ),
        i <= r.0 <= src@.len(),
    decreases src@.len() - i, 2int,
{
    let ghost target = else_ifs(src@, i as int, m_conds(conds@), m_bodies(bodies@));
    let mut i2 = i;
    let mut conds = conds;
    let mut bodies = bodies;
    loop
        invariant
            i <= i2 <= src@.len(),
            else_ifs(src@, i2 as int, m_conds(conds@), m_bodies(bodies@)) == target,
        decreases src@.len() - i2,
    {
        let a = space0_at(src, i2);
        let b = match tag_at(src, a, "else") {
            None => {
                return (i2, (conds, bodies));
            },
            Some(b) => b,
        };
        let c = space0_at(src, b);
        if !(i2 < c && c <= src.len()) {
            return (i2, (conds, bodies));
        }
        match single_if_at(src, c) {
            Some((d, (cond, body))) => {
                if i2 < d && d <= src.len() {
                    let ghost oc = conds@;
                    let ghost ob = bodies@;
                    let ghost cv = cond@;
                    let ghost bv = m_cmds(body@);
                    conds.push(cond);
                    bodies.push(body);
                    assert(m_conds(conds@) =~= m_conds(oc).push(cv));
                    assert(m_bodies(bodies@) =~= m_bodies(ob).push(bv));
                    i2 = d;
                } else {
                    return (i2, (conds, bodies));
                }
            },
            None => {
                return (i2, (conds, bodies));
            },
        }
    }
}

pub fn else_block_at(src: &Source, i: usize) -> (r: Option<(usize, Vec<Command>)>)
    requires
        i <= src@.len(),
    ensures
        match r {
            Some((j, b)) => else_block(src@, i as int) == Some((j as int, m_cmds(b@))),
            None => else_block(src@, i as int) is None,
        },
        ends(r, src@, i as int),
    decreases src@.len() - i, 2int,
{
    let a = space0_at(src, i);
    let b = match tag_at(src, a, "else") {
        None => {
            return None;
        },
        Some(b) => b,
    };
    let b2 = space0_at(src, b);
    let d = match tag_at(src, b2, "{") {
        None => {
            return None;
        },
        Some(d) => d,
    };
    let e = space0_at(src, d);
    if !(i < e && e <= src.len()) {
        return None;
    }
    let (f, body) = block_at(src, e);
    if !(e <= f && f <= src.len()) {
        return None;
    }
    let f2 = space0_at(src, f);
    match tag_at(src, f2, "}") {
        Some(h) => Some((h, body)),
        None => None,
    }
}

pub fn if_command(conds: Vec<Bool>, bodies: Vec<Vec<Command>>, el: Vec<Command>) -> (r: Command)
    ensures
        r@ == SCommand::Block(SBlock::If(m_conds(conds@), m_bodies(bodies@), m_cmds(el@))),
{
    let ghost cv = conds@;
    let ghost bv = bodies@;
    let ghost ev = el@;
    let b = Block::If(conds, bodies, el);
    proof {
        assert(b@->If_0 =~= m_conds(cv));
        assert forall|k: int| 0 <= k < bv.len() implies b@->If_1[k] == m_bodies(bv)[k] by {
            assert(b@->If_1[k] =~= m_cmds(bv[k]@));
        }
        assert(b@->If_1 =~= m_bodies(bv));
        assert(b@->If_2 =~= m_cmds(ev));
    }
    Command::Block(b)
}

pub fn if_else_at(src: &Source, i: usize) -> (r: Option<(usize, Command)>)
    requires
        i <= src@.len(),
    ensures
        cmd_view(r) == if_else(src@, i as int),
        ends(r, src@, i as int),
    decreases src@.len() - i, 2int,
{
    let (a, (cond, body)) = match single_if_at(src, i) {
        None => {
            return None;
        },
        Some(x) => x,
    };
    if !(i < a && a <= src.len()) {
        return None;
    }
    let mut conds: Vec<Bool> = Vec::new();
    let mut bodies: Vec<Vec<Command>> = Vec::new();
    let ghost cv = cond@;
    let ghost bv = m_cmds(body@);
    conds.push(cond);
    bodies.push(body);
    assert(m_conds(conds@) =~= seq![cv]);
    assert(m_bodies(bodies@) =~= seq![bv]);
    let (b, (conds, bodies)) = else_ifs_at(src, a, conds, bodies);
    if !(a <= b && b <= src.len()) {
        return None;
    }
    let (e, el) = match else_block_at(src, b) {
        Some((e, el)) => (e, el),
        None => {
            assert(m_cmds(Seq::<Command>::empty()) =~= Seq::<SCommand>::empty());
            (b, Vec::new())
        },
    };
    Some((e, if_command(conds, bodies, el)))
}

fn while_command(cond: Bool, body: Vec<Command>, inv: Bool, var: Option<Expr>) -> (r: Command)
    ensures
        r@ == SCommand::Block(SBlock::While(cond@, m_cmds(body@), inv@, match var {
            Some(e) => Some(e@),
            None => None,
        })),
{
    let ghost bv = body@;
    let b = Block::While(cond, body, inv, var);
    assert(b@->While_1 =~= m_cmds(bv));
    Command::Block(b)
}

pub fn while_parse_at(src: &Source, i: usize) -> (r: Option<(usize, Command)>)
    requires
        i <= src@.len(),
    ensures
        cmd_view(r) == while_parse(src@, i as int),
        ends(r, src@, i as int),
    decreases src@.len() - i, 1int,
{
    let (a, inv) = match annotation_at(src, i, "invariant") {
        None => {
            return None;
        },
        Some(x) => x,
    };
    let a1 = space0_at(src, a);
    let (a2, var) = match variant_at(src, a1) {
        Some((p, e)) => (space0_at(src, p), Some(e)),
        None => (a1, None),
    };
    let c = match tag_at(src, a2, "while") {
        None => {
            return None;
        },
        Some(c) => c,
    };
    let d = match space1_at(src, c) {
        None => {
            return None;
        },
        Some(d) => d,
    };
    let (e, cond) = match bool_expr_at(src, d) {
        None => {
            return None;
        },
        Some(x) => x,
    };
    let e2 = space0_at(src, e);
    let g = match tag_at(src, e2, "{") {
        None => {
            return None;
        },
        Some(g) => g,
    };
    let h = multispace0_at(src, g);
    if !(i < h && h <= src.len()) {
        return None;
    }
    let (k, body) = block_at(src, h);
    if !(h <= k && k <= src.len()) {
        return None;
    }
    let k2 = multispace0_at(src, k);
    match tag_at(src, k2, "}") {
        Some(n) => Some((n, while_command(cond, body, inv, var))),
        None => None,
    }
}

fn for_command(it: Variable, first: Value, last: Value, body: Vec<Command>, inv: Bool) -> (r: Command)
    ensures
        r@ == SCommand::Block(SBlock::ForRange(it@, first@, last@, m_cmds(body@), inv@)),
{
    let ghost bv = body@;
    let b = Block::ForRange(it, first, last, body, inv);
    assert(b@->ForRange_3 =~= m_cmds(bv));
    Command::Block(b)
}

pub fn for_parse_at(src: &Source, i: usize) -> (r: Option<(usize, Command)>)
    requires
        i <= src@.len(),
    ensures
        cmd_view(r) == for_parse(src@, i as int),
        ends(r, src@, i as int),
    decreases src@.len() - i, 1int,
{
    let (a, inv) = match annotation_at(src, i, "invariant") {
        None => {
            return None;
        },
        Some(x) => x,
    };
    let a2 = space0_at(src, a);
    let c = match tag_at(src, a2, "for") {
        None => {
            return None;
        },
        Some(c) => c,
    };
    let d = match space1_at(src, c) {
        None => {
            return None;
        },
        Some(d) => d,
    };
    let (e, it) = match variable_single_at(src, d) {
        None => {
            return None;
        },
        Some(x) => x,
    };
    let f = match space1_at(src, e) {
        None => {
            return None;
        },
        Some(f) => f,
    };
    let g = match tag_at(src, f, "in") {
        None => {
            return None;
        },
        Some(g) => g,
    };
    let h = match space1_at(src, g) {
        None => {
            return None;
        },
        Some(h) => h,
    };
    let (k, first) = match r_value_at(src, h) {
        None => {
            return None;
        },
        Some(x) => x,
    };
    let k2 = space0_at(src, k);
    let m = match tag_at(src, k2, "..") {
        None => {
            return None;
        },
        Some(m) => m,
    };
    let m2 = space0_at(src, m);
    let (n, last) = match r_value_at(src, m2) {
        None => {
            return None;
        },
        Some(x) => x,
    };
    let n2 = space0_at(src, n);
    let p = match tag_at(src, n2, "{") {
        None => {
            return None;
        },
        Some(p) => p,
    };
    let q = multispace0_at(src, p);
    if !(i < q && q <= src.len()) {
        return None;
    }
    let (r, body) = block_at(src, q);
    if !(q <= r && r <= src.len()) {
        return None;
    }
    let r2 = multispace0_at(src, r);
    match tag_at(src, r2, "}") {
        Some(t) => Some((t, for_command(it, first, last, body, inv))),
        None => None,
    }
}

pub fn debug_comment_at(src: &Source, i: usize) -> (r: Option<usize>)
    requires
        i <= src@.len(),
    ensures
        pos_of_opt(r) == debug_comment(src@, i as int),
        r matches Some(j) ==> i <= j <= src@.len(),
    decreases src@.len() - i, 4int,
{
    if command_at(src, i).is_some() {
        return None;
    }
    let b = match tag_at(src, i, "//%debug") {
        None => {
            return None;
        },
        Some(b) => b,
    };
    let c = match char_at_exec(src, b, '\n') {
        None => {
            return None;
        },
        Some(c) => c,
    };
    let d = line_end(src, c);
    if d <= c {
        return None;
    }
    match char_at_exec(src, d, '\n') {
        Some(e) => Some(e),
        None => Some(d),
    }
}

pub fn single_comment_at(src: &Source, i: usize) -> (r: Option<usize>)
    requires
        i <= src@.len(),
    ensures
        pos_of_opt(r) == single_comment(src@, i as int),
        r matches Some(j) ==> i <= j <= src@.len(),
    decreases src@.len() - i, 4int,
{
    if command_at(src, i).is_some() || tag_at(src, i, "//%").is_some() {
        return None;
    }
    let a = match tag_at(src, i, "//") {
        None => {
            return None;
        },
        Some(a) => a,
    };
    let b = line_end(src, a);
    if b <= a {
        return None;
    }
    match char_at_exec(src, b, '\n') {
        Some(c) => Some(c),
        None => Some(b),
    }
}

pub fn multiline_comment_at(src: &Source, i: usize) -> (r: Option<usize>)
    requires
        i <= src@.len(),
    ensures
        pos_of_opt(r) == multiline_comment(src@, i as int),
        r matches Some(j) ==> i <= j <= src@.len(),
    decreases src@.len() - i, 4int,
{
    if command_at(src, i).is_some() {
        return None;
    }
    let a = match tag_at(src, i, "/*") {
        None => {
            return None;
        },
        Some(a) => a,
    };
    match find_close_at(src, a) {
        Some(b) => {
            let len = src.len();
            assert(b + 2 <= len);
            Some(b + 2)
        },
        None => None,
    }
}

pub fn comment_item_at(src: &Source, i: usize) -> (r: Option<usize>)
    requires
        i <= src@.len(),
    ensures
        pos_of_opt(r) == comment_item(src@, i as int),
        r matches Some(j) ==> i <= j <= src@.len(),
    decreases src@.len() - i, 5int,
{
    let a = multispace0_at(src, i);
    let b = match debug_comment_at(src, a) {
        Some(b) => Some(b),
        None => match single_comment_at(src, a) {
            Some(b) => Some(b),
            None => multiline_comment_at(src, a),
        },
    };
    match b {
        Some(b) => Some(multispace0_at(src, b)),
        None => None,
    }
}

#[verifier::loop_isolation(false)]
pub fn comments_at(src: &Source, i: usize) -> (r: usize)
    requires
        i <= src@.len(),
    ensures
        r == comments(src@, i as int),
        i <= r <= src@.len(),
    decreases src@.len() - i, 6int,
{
    let mut i2 = i;
    loop
        invariant
            i <= i2 <= src@.len(),
            comments(src@, i2 as int) == comments(src@, i as int),
        decreases src@.len() - i2,
    {
        match comment_item_at(src, i2) {
            Some(j) => {
                if i2 < j && j <= src.len() {
                    i2 = j;
                } else {
                    return i2;
                }
            },
            None => {
                return i2;
            },
        }
    }
}

pub fn block_item_at(src: &Source, i: usize) -> (r: Option<(usize, Command)>)
    requires
        i <= src@.len(),
    ensures
        cmd_view(r) == block_item(src@, i as int),
        ends(r, src@, i as int),
    decreases src@.len() - i, 7int,
{
    let a = comments_at(src, i);
    let b = multispace0_at(src, a);
    match command_at(src, b) {
        None => None,
        Some((c, cmd)) => {
            let d = multispace0_at(src, c);
            Some((comments_at(src, d), cmd))
        },
    }
}

#[verifier::loop_isolation(false)]
pub fn block_items_at(src: &Source, i: usize, acc: Vec<Command>) -> (r: (usize, Vec<Command>))
    requires
        i <= src@.len(),
    ensures
        (r.0 as int, m_cmds(r.1@)) == block_items(src@, i as int, m_cmds(acc@)),
        i <= r.0 <= src@.len(),
    decreases src@.len() - i, 8int,
{
    let ghost target = block_items(src@, i as int, m_cmds(acc@));
    let mut i2 = i;
    let mut acc = acc;
    loop
        invariant
            i <= i2 <= src@.len(),
            block_items(src@, i2 as int, m_cmds(acc@)) == target,
        decreases src@.len() - i2,
    {
        match block_item_at(src, i2) {
            Some((j, c)) => {
                if i2 < j && j <= src.len() {
                    let ghost old_acc = acc@;
                    let ghost cv = c@;
                    acc.push(c);
                    assert(m_cmds(acc@) =~= m_cmds(old_acc).push(cv));
                    i2 = j;
                } else {
                    return (i2, acc);
                }
            },
            None => {
                return (i2, acc);
            },
        }
    }
}

pub fn block_at(src: &Source, i: usize) -> (r: (usize, Vec<Command>))
    requires
        i <= src@.len(),
    ensures
        (r.0 as int, m_cmds(r.1@)) == block(src@, i as int),
        i <= r.0 <= src@.len(),
    decreases src@.len() - i, 9int,
{
    assert(m_cmds(Seq::<Command>::empty()) =~= Seq::<SCommand>::empty());
    block_items_at(src, i, Vec::new())
}

// ------------------------------------------------------------------
// Functions and programs
// ------------------------------------------------------------------
pub fn with_old_values_exec(pre: Bool, inputs: &Vec<Binding>) -> (r: Bool)
    ensures
        r@ == with_old_values(pre@, m_bindings(inputs@)),
{
    let ghost ins = m_bindings(inputs@);
    let ghost p0 = pre@;
    let mut p = pre;
    let mut k: usize = 0;
    assert(ins.take(0) =~= Seq::<SBinding>::empty());
    while k < inputs.len()
        invariant
            k <= inputs.len(),
            ins == m_bindings(inputs@),
            p@ == with_old_values(p0, ins.take(k as int)),
        decreases inputs.len() - k,
    {
        assert(ins.take(k + 1).drop_last() =~= ins.take(k as int));
        assert(ins.take(k + 1).last() == inputs@[k as int]@);
        match &inputs[k] {
            Binding::Declaration(Variable::Named(x), Type::I32, _) => {
                let nv = Variable::Named(copy_string(x));
                assert(nv@ == SVariable::Named(x@));
                let vv = Value::Variable(nv);
                assert(vv@ == SValue::Variable(SVariable::Named(x@)));
                let lhs = Expr::Value(Box::new(vv));
                assert(lhs@ == SExpr::Value(Box::new(SValue::Variable(SVariable::Named(x@)))));
                let mut o = copy_string(x);
                o.append("'old");
                let onv = Variable::Named(o);
                assert(onv@ == SVariable::Named(x@ + "'old"@));
                let ov = Value::Variable(onv);
                assert(ov@ == SValue::Variable(SVariable::Named(x@ + "'old"@)));
                let rhs = Expr::Value(Box::new(ov));
                assert(rhs@ == SExpr::Value(Box::new(SValue::Variable(SVariable::Named(x@ + "'old"@)))));
                let eq = Bool::Equal(lhs, rhs);
                assert(eq@ == SBool::Equal(
                    SExpr::Value(Box::new(SValue::Variable(SVariable::Named(x@)))),
                    SExpr::Value(Box::new(SValue::Variable(SVariable::Named(x@ + "'old"@)))),
                ));
                p = Bool::And(Box::new(p), Box::new(eq));
            },
            _ => {},
        }
        k = k + 1;
    }
    assert(ins.take(k as int) =~= ins);
    p
}

#[verifier::rlimit(80)]
pub fn function_at(src: &Source, i: usize) -> (r: Option<(usize, Function)>)
    requires
        i <= src@.len(),
    ensures
        match r {
            Some((j, f)) => function(src@, i as int) == Some((j as int, f@)),
            None => function(src@, i as int) is None,
        },
        ends(r, src@, i as int),
{
    let (a, pre) = match annotation_at(src, i, "precondition") {
        Some((a, p)) => (a, p),
        None => (i, Bool::True),
    };
    let b = multispace0_at(src, a);
    let (c, post) = match annotation_at(src, b, "postcondition") {
        Some((c, p)) => (c, p),
        None => (b, Bool::True),
    };
    let c2 = multispace0_at(src, c);
    let e = match tag_at(src, c2, "fn") {
        None => {
            return None;
        },
        Some(e) => e,
    };
    let f = match space1_at(src, e) {
        None => {
            return None;
        },
        Some(f) => f,
    };
    let (g, name) = match function_name_at(src, f) {
        None => {
            return None;
        },
        Some(x) => x,
    };
    let g2 = space0_at(src, g);
    let k = match tag_at(src, g2, "(") {
        None => {
            return None;
        },
        Some(k) => k,
    };
    let k2 = space0_at(src, k);
    let (n, ins) = function_inputs_at(src, k2);
    let n2 = space0_at(src, n);
    let q = match tag_at(src, n2, ")") {
        None => {
            return None;
        },
        Some(q) => q,
    };
    let r = space0_at(src, q);
    let (t, out) = match tag_at(src, r, "->") {
        Some(r1) => {
            let r2 = space0_at(src, r1);
            match type_def_at(src, r2) {
                Some((t, o)) => (t, o),
                None => (r, Type::Unit),
            }
        },
        None => (r, Type::Unit),
    };
    let t2 = space0_at(src, t);
    let v = match tag_at(src, t2, "{") {
        None => {
            return None;
        },
        Some(v) => v,
    };
    let v2 = space0_at(src, v);
    let (x, cmds) = block_at(src, v2);
    let y = multispace0_at(src, x);
    let (z, rv) = match r_value_at(src, y) {
        Some((z, rv)) => (z, rv),
        None => (y, Value::Unit),
    };
    let z2 = multispace0_at(src, z);
    match tag_at(src, z2, "}") {
        None => None,
        Some(bb) => {
            let precondition = with_old_values_exec(pre, &ins);
            let fun = Function {
                name,
                content: cmds,
                input: ins,
                output: out,
                precondition,
                postcondition: post,
                return_value: rv,
            };
            proof {
                assert(fun@.input =~= m_bindings(fun.input@));
            }
            Some((multispace0_at(src, bb), fun))
        },
    }
}

pub open spec fn m_functions(v: Seq<Function>) -> Seq<SFunction> {
    v.map_values(|f: Function| f@)
}

#[verifier::loop_isolation(false)]
pub fn functions_rest_at(src: &Source, i: usize, acc: Vec<Function>) -> (r: (usize, Vec<Function>))
    requires
        i <= src@.len(),
    ensures
        (r.0 as int, m_functions(r.1@)) == functions_rest(src@, i as int, m_functions(acc@)),
        i <= r.0 <= src@.len(),
{
    let ghost target = functions_rest(src@, i as int, m_functions(acc@));
    let mut i2 = i;
    let mut acc = acc;
    loop
        invariant
            i <= i2 <= src@.len(),
            functions_rest(src@, i2 as int, m_functions(acc@)) == target,
        decreases src@.len() - i2,
    {
        match function_at(src, i2) {
            Some((j, f)) => {
                if i2 < j && j <= src.len() {
                    let ghost old_acc = acc@;
                    let ghost fv = f@;
                    acc.push(f);
                    assert(m_functions(acc@) =~= m_functions(old_acc).push(fv));
                    i2 = j;
                } else {
                    return (i2, acc);
                }
            },
            None => {
                return (i2, acc);
            },
        }
    }
}

pub fn program_at(src: &Source, i: usize) -> (r: Option<(usize, Program)>)
    requires
        i <= src@.len(),
    ensures
        match r {
            Some((j, p)) => program(src@, i as int) == Some((j as int, p@)),
            None => program(src@, i as int) is None,
        },
        ends(r, src@, i as int),
{
    match function_at(src, i) {
        None => None,
        Some((j, f)) => {
            let mut acc: Vec<Function> = Vec::new();
            let ghost fv = f@;
            acc.push(f);
            assert(m_functions(acc@) =~= seq![fv]);
            if i < j && j <= src.len() {
                let (k, fs) = functions_rest_at(src, j, acc);
                let p = Program { content: fs };
                assert(p@.content =~= m_functions(fs@));
                Some((k, p))
            } else {
                let p = Program { content: acc };
                assert(p@.content =~= m_functions(acc@));
                Some((j, p))
            }
        },
    }
}

} // verus!
