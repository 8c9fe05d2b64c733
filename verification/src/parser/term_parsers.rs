//! The parsers of values, each proved to read exactly what its rule in
//! `terms` says.
use vstd::prelude::*;
use crate::ast::{Bool, Expr, Opcode, SBool, SExpr, SValue, SVariable, Value, Variable, m_value, m_values};
use crate::parser::lexical::{
    Source, after, char_at, char_at_exec, function_name_at, number_at, skip_space, space0_at,
    space1, space1_at, tag, tag_at, variable_name_at,
};
use crate::parser::terms::{
    add_expr_right, add_or_subtract, add_rest, and_rest, array_content, array_rest, bool_add_expr_right, bool_expr, bool_expr_r_value, bool_expr_val, bool_mult_expr, bool_mult_expr_right, call_args, call_args_rest, compare_build, compare_op, dereference, expr_number, expr_r_value, factor, factor_compare, factor_compare_op, factor_id, factor_not, factor_paren, function_call, math_expr, math_expr_val, mult_expr, mult_expr_right, mult_or_divide_or_mod, mult_rest, or_rest, primary_expr, quantifier, r_value, reference, reference_mut, tuple_rest, tuple_values, variable, variable_array_elem, variable_single, variable_tuple_elem, variable_val,
};

verus! {

pub open spec fn val_view(r: Option<(usize, Value)>) -> Option<(int, SValue)> {
    match r {
        Some((j, v)) => Some((j as int, v@)),
        None => None,
    }
}

pub open spec fn expr_view(r: Option<(usize, Expr)>) -> Option<(int, SExpr)> {
    match r {
        Some((j, v)) => Some((j as int, v@)),
        None => None,
    }
}

pub open spec fn bool_view(r: Option<(usize, Bool)>) -> Option<(int, SBool)> {
    match r {
        Some((j, v)) => Some((j as int, v@)),
        None => None,
    }
}

pub open spec fn var_view(r: Option<(usize, Variable)>) -> Option<(int, SVariable)> {
    match r {
        Some((j, v)) => Some((j as int, v@)),
        None => None,
    }
}

pub open spec fn op_view(r: Option<(usize, Opcode)>) -> Option<(int, Opcode)> {
    match r {
        Some((j, v)) => Some((j as int, v)),
        None => None,
    }
}

pub open spec fn opexpr_view(r: Option<(usize, (Opcode, Expr))>) -> Option<(int, (Opcode, SExpr))> {
    match r {
        Some((j, (o, e))) => Some((j as int, (o, e@))),
        None => None,
    }
}

/// The position after what a parser read is not before where it started
/// nor past the end.
pub open spec fn ends<T>(r: Option<(usize, T)>, s: Seq<char>, i: int) -> bool {
    r matches Some((j, _)) ==> i <= j <= s.len()
}

proof fn lemma_values_push(v: Seq<Value>, x: Value)
    ensures
        m_values(v.push(x)) == m_values(v).push(x@),
{
    assert(m_values(v.push(x)) =~= m_values(v).push(x@));
}

pub fn expr_number_at(src: &Source, i: usize) -> (r: Option<(usize, Expr)>)
    requires
        i <= src@.len(),
    ensures
        expr_view(r) == expr_number(src@, i as int),
        ends(r, src@, i as int),
{
    match tag_at(src, i, "-") {
        Some(j) => match number_at(src, j) {
            Some((k, v)) => {
                return Some((k, Expr::Number(-v)));
            },
            None => {},
        },
        None => {},
    }
    match number_at(src, i) {
        Some((k, v)) => Some((k, Expr::Number(v))),
        None => None,
    }
}

pub fn variable_single_at(src: &Source, i: usize) -> (r: Option<(usize, Variable)>)
    requires
        i <= src@.len(),
    ensures
        var_view(r) == variable_single(src@, i as int),
        ends(r, src@, i as int),
{
    match variable_name_at(src, i) {
        Some((j, w)) => Some((j, Variable::Named(w))),
        None => None,
    }
}

pub fn mult_or_divide_or_mod_at(src: &Source, i: usize) -> (r: Option<(usize, Opcode)>)
    requires
        i <= src@.len(),
    ensures
        op_view(r) == mult_or_divide_or_mod(src@, i as int),
        ends(r, src@, i as int),
{
    if i < src.len() {
        let c = src.at(i);
        if c == '*' {
            return Some((i + 1, Opcode::Mul));
        } else if c == '/' {
            return Some((i + 1, Opcode::Div));
        } else if c == '%' {
            return Some((i + 1, Opcode::Rem));
        }
    }
    None
}

pub fn add_or_subtract_at(src: &Source, i: usize) -> (r: Option<(usize, Opcode)>)
    requires
        i <= src@.len(),
    ensures
        op_view(r) == add_or_subtract(src@, i as int),
        ends(r, src@, i as int),
{
    if i < src.len() {
        let c = src.at(i);
        if c == '+' {
            return Some((i + 1, Opcode::Add));
        } else if c == '-' {
            return Some((i + 1, Opcode::Sub));
        }
    }
    None
}

// ------------------------------------------------------------------
// Values
// ------------------------------------------------------------------
pub fn r_value_at(src: &Source, i: usize) -> (r: Option<(usize, Value)>)
    requires
        i <= src@.len(),
    ensures
        val_view(r) == r_value(src@, i as int),
        ends(r, src@, i as int),
    decreases src@.len() - i, 50int,
{
    let d = dereference_at(src, i);
    if d.is_some() {
        return d;
    }
    let t = tuple_values_at(src, i);
    if t.is_some() {
        return t;
    }
    let f = function_call_at(src, i);
    if f.is_some() {
        return f;
    }
    let v = variable_val_at(src, i);
    if v.is_some() {
        return v;
    }
    let m = math_expr_val_at(src, i);
    if m.is_some() {
        return m;
    }
    let b = bool_expr_val_at(src, i);
    if b.is_some() {
        return b;
    }
    let rm = reference_mut_at(src, i);
    if rm.is_some() {
        return rm;
    }
    reference_at(src, i)
}

pub fn reference_at(src: &Source, i: usize) -> (r: Option<(usize, Value)>)
    requires
        i <= src@.len(),
    ensures
        val_view(r) == reference(src@, i as int),
        ends(r, src@, i as int),
    decreases src@.len() - i, 5int,
{
    match tag_at(src, i, "&") {
        None => None,
        Some(j) => {
            let k = space0_at(src, j);
            if !(i < k && k <= src.len()) {
                return None;
            }
            match r_value_at(src, k) {
                Some((m, v)) => Some((m, Value::Reference(Box::new(v)))),
                None => None,
            }
        },
    }
}

pub fn reference_mut_at(src: &Source, i: usize) -> (r: Option<(usize, Value)>)
    requires
        i <= src@.len(),
    ensures
        val_view(r) == reference_mut(src@, i as int),
        ends(r, src@, i as int),
    decreases src@.len() - i, 5int,
{
    match tag_at(src, i, "&mut") {
        None => None,
        Some(j) => match space1_at(src, j) {
            None => None,
            Some(k) => {
                if !(i < k && k <= src.len()) {
                    return None;
                }
                match r_value_at(src, k) {
                    Some((m, v)) => Some((m, Value::ReferenceMutable(Box::new(v)))),
                    None => None,
                }
            },
        },
    }
}

pub fn dereference_at(src: &Source, i: usize) -> (r: Option<(usize, Value)>)
    requires
        i <= src@.len(),
    ensures
        val_view(r) == dereference(src@, i as int),
        ends(r, src@, i as int),
    decreases src@.len() - i, 5int,
{
    match tag_at(src, i, "*") {
        None => None,
        Some(j) => {
            let k = space0_at(src, j);
            if !(i < k && k <= src.len()) {
                return None;
            }
            match variable_val_at(src, k) {
                Some((m, v)) => Some((m, Value::Dereference(Box::new(v)))),
                None => None,
            }
        },
    }
}

pub fn function_call_at(src: &Source, i: usize) -> (r: Option<(usize, Value)>)
    requires
        i <= src@.len(),
    ensures
        val_view(r) == function_call(src@, i as int),
        ends(r, src@, i as int),
    decreases src@.len() - i, 5int,
{
    match function_name_at(src, i) {
        None => None,
        Some((j, name)) => {
            let j2 = space0_at(src, j);
            match tag_at(src, j2, "(") {
                None => None,
                Some(k) => {
                    let p = space0_at(src, k);
                    if !(i < p && p <= src.len()) {
                        return None;
                    }
                    let (q, args) = call_args_at(src, p);
                    if !(p <= q && q <= src.len()) {
                        return None;
                    }
                    let q2 = space0_at(src, q);
                    match tag_at(src, q2, ")") {
                        Some(u) => {
                            let ghost av = args@;
                            let res = Value::FunctionCall(name, args);
                            proof {
                                assert(res@->FunctionCall_1 =~= m_values(av));
                            }
                            Some((u, res))
                        },
                        None => None,
                    }
                },
            }
        },
    }
}

pub fn call_args_at(src: &Source, i: usize) -> (r: (usize, Vec<Value>))
    requires
        i <= src@.len(),
    ensures
        (r.0 as int, m_values(r.1@)) == call_args(src@, i as int),
        i <= r.0 <= src@.len(),
    decreases src@.len() - i, 60int,
{
    match r_value_at(src, i) {
        Some((j, v)) => {
            if i < j && j <= src.len() {
                let mut acc: Vec<Value> = Vec::new();
                acc.push(v);
                assert(m_values(acc@) =~= seq![v@]);
                call_args_rest_at(src, j, acc)
            } else {
                assert(m_values(Seq::<Value>::empty()) =~= Seq::<SValue>::empty());
                (i, Vec::new())
            }
        },
        None => {
            assert(m_values(Seq::<Value>::empty()) =~= Seq::<SValue>::empty());
            (i, Vec::new())
        },
    }
}

#[verifier::loop_isolation(false)]
pub fn call_args_rest_at(src: &Source, i: usize, acc: Vec<Value>) -> (r: (usize, Vec<Value>))
    requires
        i <= src@.len(),
    ensures
        (r.0 as int, m_values(r.1@)) == call_args_rest(src@, i as int, m_values(acc@)),
        i <= r.0 <= src@.len(),
    decreases src@.len() - i, 3int,
{
    let ghost s = src@;
    let ghost target = call_args_rest(s, i as int, m_values(acc@));
    let mut i2 = i;
    let mut acc = acc;
    loop
        invariant
            i <= i2 <= src@.len(),
            s == src@,
            call_args_rest(s, i2 as int, m_values(acc@)) == target,
        decreases src@.len() - i2,
    {
        let a0 = space0_at(src, i2);
        match tag_at(src, a0, ",") {
            None => {
                return (i2, acc);
            },
            Some(a) => {
                let b = space0_at(src, a);
                if !(i2 < b && b <= src.len()) {
                    return (i2, acc);
                }
                match r_value_at(src, b) {
                    Some((c, v)) => {
                        if i2 < c && c <= src.len() {
                            proof {
                                lemma_values_push(acc@, v);
                            }
                            acc.push(v);
                            i2 = c;
                        } else {
                            return (i2, acc);
                        }
                    },
                    None => {
                        return (i2, acc);
                    },
                }
            },
        }
    }
}

pub fn variable_val_at(src: &Source, i: usize) -> (r: Option<(usize, Value)>)
    requires
        i <= src@.len(),
    ensures
        val_view(r) == variable_val(src@, i as int),
        ends(r, src@, i as int),
    decreases src@.len() - i, 12int,
{
    match variable_at(src, i) {
        Some((j, v)) => Some((j, Value::Variable(v))),
        None => None,
    }
}

pub fn variable_at(src: &Source, i: usize) -> (r: Option<(usize, Variable)>)
    requires
        i <= src@.len(),
    ensures
        var_view(r) == variable(src@, i as int),
        ends(r, src@, i as int),
    decreases src@.len() - i, 11int,
{
    let t = variable_tuple_elem_at(src, i);
    if t.is_some() {
        return t;
    }
    let a = variable_array_elem_at(src, i);
    if a.is_some() {
        return a;
    }
    variable_single_at(src, i)
}

pub fn variable_array_elem_at(src: &Source, i: usize) -> (r: Option<(usize, Variable)>)
    requires
        i <= src@.len(),
    ensures
        var_view(r) == variable_array_elem(src@, i as int),
        ends(r, src@, i as int),
    decreases src@.len() - i, 10int,
{
    match variable_name_at(src, i) {
        None => None,
        Some((j, w)) => match char_at_exec(src, j, '[') {
            None => None,
            Some(k) => {
                let m = space0_at(src, k);
                if !(i < m && m <= src.len()) {
                    return None;
                }
                match r_value_at(src, m) {
                    None => None,
                    Some((p, v)) => {
                        let p2 = space0_at(src, p);
                        match char_at_exec(src, p2, ']') {
                            Some(q) => Some((q, Variable::ArrayElem(w, Box::new(v)))),
                            None => None,
                        }
                    },
                }
            },
        },
    }
}

pub fn variable_tuple_elem_at(src: &Source, i: usize) -> (r: Option<(usize, Variable)>)
    requires
        i <= src@.len(),
    ensures
        var_view(r) == variable_tuple_elem(src@, i as int),
        ends(r, src@, i as int),
    decreases src@.len() - i, 10int,
{
    match variable_name_at(src, i) {
        None => None,
        Some((j, w)) => match char_at_exec(src, j, '.') {
            None => None,
            Some(k) => {
                if !(i < k && k <= src.len()) {
                    return None;
                }
                match r_value_at(src, k) {
                    Some((p, v)) => Some((p, Variable::TupleElem(w, Box::new(v)))),
                    None => None,
                }
            },
        },
    }
}

pub fn tuple_values_at(src: &Source, i: usize) -> (r: Option<(usize, Value)>)
    requires
        i <= src@.len(),
    ensures
        val_view(r) == tuple_values(src@, i as int),
        ends(r, src@, i as int),
    decreases src@.len() - i, 5int,
{
    let a = match tag_at(src, i, "(") {
        None => {
            return None;
        },
        Some(a) => a,
    };
    let b = space0_at(src, a);
    if !(i < b && b <= src.len()) {
        return None;
    }
    let (c, first) = match r_value_at(src, b) {
        None => {
            return None;
        },
        Some(x) => x,
    };
    let c2 = space0_at(src, c);
    let e = match char_at_exec(src, c2, ',') {
        None => {
            return None;
        },
        Some(e) => e,
    };
    let g = space0_at(src, e);
    if !(i < g && g <= src.len()) {
        return None;
    }
    let mut vals: Vec<Value> = Vec::new();
    let ghost fv = first@;
    vals.push(first);
    let h = match r_value_at(src, g) {
        Some((h, v)) => {
            vals.push(v);
            h
        },
        None => g,
    };
    let k = space0_at(src, h);
    if !(i < k && k <= src.len()) {
        return None;
    }
    let ghost head = m_values(vals@);
    let (m, rest) = tuple_rest_at(src, k, Vec::new());
    assert(m_values(Seq::<Value>::empty()) =~= Seq::<SValue>::empty());
    let m2 = space0_at(src, m);
    match tag_at(src, m2, ")") {
        Some(p) => {
            let mut rest = rest;
            vals.append(&mut rest);
            proof {
                let sp = tuple_rest(src@, k as int, seq![]);
                assert(m_values(vals@) =~= head + sp.1);
                match r_value(src@, g as int) {
                    Some((hh, vv)) => {
                        assert(head =~= seq![fv] + seq![vv]);
                    },
                    None => {
                        assert(head =~= seq![fv] + Seq::<SValue>::empty());
                    },
                }
            }
            let ghost vv = vals@;
            let res = Value::Tuple(vals);
            proof {
                assert(res@->Tuple_0 =~= m_values(vv));
            }
            Some((p, res))
        },
        None => None,
    }
}

#[verifier::loop_isolation(false)]
pub fn tuple_rest_at(src: &Source, i: usize, acc: Vec<Value>) -> (r: (usize, Vec<Value>))
    requires
        i <= src@.len(),
    ensures
        (r.0 as int, m_values(r.1@)) == tuple_rest(src@, i as int, m_values(acc@)),
        i <= r.0 <= src@.len(),
    decreases src@.len() - i, 4int,
{
    let ghost s = src@;
    let ghost target = tuple_rest(s, i as int, m_values(acc@));
    let mut i2 = i;
    let mut acc = acc;
    loop
        invariant
            i <= i2 <= src@.len(),
            s == src@,
            tuple_rest(s, i2 as int, m_values(acc@)) == target,
        decreases src@.len() - i2,
    {
        match char_at_exec(src, i2, ',') {
            None => {
                return (i2, acc);
            },
            Some(a) => {
                let b = space0_at(src, a);
                if !(i2 < b && b <= src.len()) {
                    return (i2, acc);
                }
                match r_value_at(src, b) {
                    Some((c, v)) => {
                        let d = space0_at(src, c);
                        if i2 < d && d <= src.len() {
                            proof {
                                lemma_values_push(acc@, v);
                            }
                            acc.push(v);
                            i2 = d;
                        } else {
                            return (i2, acc);
                        }
                    },
                    None => {
                        return (i2, acc);
                    },
                }
            },
        }
    }
}

pub fn array_content_at(src: &Source, i: usize) -> (r: Option<(usize, Value)>)
    requires
        i <= src@.len(),
    ensures
        val_view(r) == array_content(src@, i as int),
        ends(r, src@, i as int),
    decreases src@.len() - i, 5int,
{
    let a = match char_at_exec(src, i, '[') {
        None => {
            return None;
        },
        Some(a) => a,
    };
    let b = space0_at(src, a);
    if !(i < b && b <= src.len()) {
        return None;
    }
    let (c, first) = match r_value_at(src, b) {
        None => {
            return None;
        },
        Some(x) => x,
    };
    let d = space0_at(src, c);
    if !(i < d && d <= src.len()) {
        return None;
    }
    let ghost fv = first@;
    let (e, rest) = array_rest_at(src, d, Vec::new());
    assert(m_values(Seq::<Value>::empty()) =~= Seq::<SValue>::empty());
    let e2 = space0_at(src, e);
    match char_at_exec(src, e2, ']') {
        Some(g) => {
            let mut vals: Vec<Value> = Vec::new();
            vals.push(first);
            let mut rest = rest;
            vals.append(&mut rest);
            proof {
                assert(m_values(vals@) =~= seq![fv] + array_rest(src@, d as int, seq![]).1);
            }
            let ghost vv = vals@;
            let res = Value::Array(vals);
            proof {
                assert(res@->Array_0 =~= m_values(vv));
            }
            Some((g, res))
        },
        None => None,
    }
}

#[verifier::loop_isolation(false)]
pub fn array_rest_at(src: &Source, i: usize, acc: Vec<Value>) -> (r: (usize, Vec<Value>))
    requires
        i <= src@.len(),
    ensures
        (r.0 as int, m_values(r.1@)) == array_rest(src@, i as int, m_values(acc@)),
        i <= r.0 <= src@.len(),
    decreases src@.len() - i, 4int,
{
    let ghost s = src@;
    let ghost target = array_rest(s, i as int, m_values(acc@));
    let mut i2 = i;
    let mut acc = acc;
    loop
        invariant
            i <= i2 <= src@.len(),
            s == src@,
            array_rest(s, i2 as int, m_values(acc@)) == target,
        decreases src@.len() - i2,
    {
        match char_at_exec(src, i2, ',') {
            None => {
                return (i2, acc);
            },
            Some(a) => {
                let b = space0_at(src, a);
                if !(i2 < b && b <= src.len()) {
                    return (i2, acc);
                }
                match r_value_at(src, b) {
                    Some((c, v)) => {
                        if i2 < c && c <= src.len() {
                            proof {
                                lemma_values_push(acc@, v);
                            }
                            acc.push(v);
                            i2 = c;
                        } else {
                            return (i2, acc);
                        }
                    },
                    None => {
                        return (i2, acc);
                    },
                }
            },
        }
    }
}

// ------------------------------------------------------------------
// Arithmetic
// ------------------------------------------------------------------
pub fn math_expr_val_at(src: &Source, i: usize) -> (r: Option<(usize, Value)>)
    requires
        i <= src@.len(),
    ensures
        val_view(r) == math_expr_val(src@, i as int),
        ends(r, src@, i as int),
    decreases src@.len() - i, 30int,
{
    match math_expr_at(src, i) {
        Some((j, e)) => Some((j, Value::Expr(e))),
        None => None,
    }
}

pub fn math_expr_at(src: &Source, i: usize) -> (r: Option<(usize, Expr)>)
    requires
        i <= src@.len(),
    ensures
        expr_view(r) == math_expr(src@, i as int),
        ends(r, src@, i as int),
    decreases src@.len() - i, 29int,
{
    let a = space0_at(src, i);
    match mult_expr_at(src, a) {
        None => None,
        Some((b, e)) => {
            let (c, res) = add_rest_at(src, b, e);
            Some((c, res))
        },
    }
}

#[verifier::loop_isolation(false)]
pub fn add_rest_at(src: &Source, i: usize, acc: Expr) -> (r: (usize, Expr))
    requires
        i <= src@.len(),
    ensures
        (r.0 as int, r.1@) == add_rest(src@, i as int, acc@),
        i <= r.0 <= src@.len(),
    decreases src@.len() - i, 28int,
{
    let ghost target = add_rest(src@, i as int, acc@);
    let mut i2 = i;
    let mut acc = acc;
    loop
        invariant
            i <= i2 <= src@.len(),
            add_rest(src@, i2 as int, acc@) == target,
        decreases src@.len() - i2,
    {
        match add_expr_right_at(src, i2) {
            Some((j, (op, e))) => {
                if i2 < j && j <= src.len() {
                    acc = Expr::Op(Box::new(acc), op, Box::new(e));
                    i2 = j;
                } else {
                    return (i2, acc);
                }
            },
            None => {
                return (i2, acc);
            },
        }
    }
}

pub fn add_expr_right_at(src: &Source, i: usize) -> (r: Option<(usize, (Opcode, Expr))>)
    requires
        i <= src@.len(),
    ensures
        opexpr_view(r) == add_expr_right(src@, i as int),
        ends(r, src@, i as int),
    decreases src@.len() - i, 27int,
{
    let a = space0_at(src, i);
    match add_or_subtract_at(src, a) {
        None => None,
        Some((b, op)) => {
            let c = space0_at(src, b);
            if !(i < c && c <= src.len()) {
                return None;
            }
            match mult_expr_at(src, c) {
                Some((d, e)) => Some((space0_at(src, d), (op, e))),
                None => None,
            }
        },
    }
}

pub fn mult_expr_at(src: &Source, i: usize) -> (r: Option<(usize, Expr)>)
    requires
        i <= src@.len(),
    ensures
        expr_view(r) == mult_expr(src@, i as int),
        ends(r, src@, i as int),
    decreases src@.len() - i, 26int,
{
    let a = space0_at(src, i);
    match primary_expr_at(src, a) {
        None => None,
        Some((b, e)) => {
            let (c, res) = mult_rest_at(src, b, e);
            Some((c, res))
        },
    }
}

#[verifier::loop_isolation(false)]
pub fn mult_rest_at(src: &Source, i: usize, acc: Expr) -> (r: (usize, Expr))
    requires
        i <= src@.len(),
    ensures
        (r.0 as int, r.1@) == mult_rest(src@, i as int, acc@),
        i <= r.0 <= src@.len(),
    decreases src@.len() - i, 25int,
{
    let ghost target = mult_rest(src@, i as int, acc@);
    let mut i2 = i;
    let mut acc = acc;
    loop
        invariant
            i <= i2 <= src@.len(),
            mult_rest(src@, i2 as int, acc@) == target,
        decreases src@.len() - i2,
    {
        match mult_expr_right_at(src, i2) {
            Some((j, (op, e))) => {
                if i2 < j && j <= src.len() {
                    acc = Expr::Op(Box::new(acc), op, Box::new(e));
                    i2 = j;
                } else {
                    return (i2, acc);
                }
            },
            None => {
                return (i2, acc);
            },
        }
    }
}

pub fn mult_expr_right_at(src: &Source, i: usize) -> (r: Option<(usize, (Opcode, Expr))>)
    requires
        i <= src@.len(),
    ensures
        opexpr_view(r) == mult_expr_right(src@, i as int),
        ends(r, src@, i as int),
    decreases src@.len() - i, 24int,
{
    let a = space0_at(src, i);
    match mult_or_divide_or_mod_at(src, a) {
        None => None,
        Some((b, op)) => {
            let c = space0_at(src, b);
            if !(i < c && c <= src.len()) {
                return None;
            }
            match primary_expr_at(src, c) {
                Some((d, e)) => Some((space0_at(src, d), (op, e))),
                None => None,
            }
        },
    }
}

pub fn primary_expr_at(src: &Source, i: usize) -> (r: Option<(usize, Expr)>)
    requires
        i <= src@.len(),
    ensures
        expr_view(r) == primary_expr(src@, i as int),
        ends(r, src@, i as int),
    decreases src@.len() - i, 23int,
{
    let n = expr_number_at(src, i);
    if n.is_some() {
        return n;
    }
    let v = expr_r_value_at(src, i);
    if v.is_some() {
        return v;
    }
    match char_at_exec(src, i, '(') {
        None => None,
        Some(j) => {
            let k = space0_at(src, j);
            if !(i < k && k <= src.len()) {
                return None;
            }
            match math_expr_at(src, k) {
                None => None,
                Some((m, e)) => {
                    let m2 = space0_at(src, m);
                    match char_at_exec(src, m2, ')') {
                        Some(n2) => Some((space0_at(src, n2), e)),
                        None => None,
                    }
                },
            }
        },
    }
}

pub fn expr_r_value_at(src: &Source, i: usize) -> (r: Option<(usize, Expr)>)
    requires
        i <= src@.len(),
    ensures
        expr_view(r) == expr_r_value(src@, i as int),
        ends(r, src@, i as int),
    decreases src@.len() - i, 22int,
{
    match function_call_at(src, i) {
        Some((j, v)) => Some((j, Expr::Value(Box::new(v)))),
        None => match variable_val_at(src, i) {
            Some((j, v)) => Some((j, Expr::Value(Box::new(v)))),
            None => None,
        },
    }
}

// ------------------------------------------------------------------
// Formulas
// ------------------------------------------------------------------
pub fn bool_expr_val_at(src: &Source, i: usize) -> (r: Option<(usize, Value)>)
    requires
        i <= src@.len(),
    ensures
        val_view(r) == bool_expr_val(src@, i as int),
        ends(r, src@, i as int),
    decreases src@.len() - i, 46int,
{
    match bool_expr_at(src, i) {
        Some((j, b)) => Some((j, Value::Bool(b))),
        None => None,
    }
}

pub fn bool_expr_at(src: &Source, i: usize) -> (r: Option<(usize, Bool)>)
    requires
        i <= src@.len(),
    ensures
        bool_view(r) == bool_expr(src@, i as int),
        ends(r, src@, i as int),
    decreases src@.len() - i, 45int,
{
    let a = space0_at(src, i);
    match bool_mult_expr_at(src, a) {
        None => None,
        Some((b, e)) => {
            let (c, res) = or_rest_at(src, b, e);
            Some((c, res))
        },
    }
}

#[verifier::loop_isolation(false)]
pub fn or_rest_at(src: &Source, i: usize, acc: Bool) -> (r: (usize, Bool))
    requires
        i <= src@.len(),
    ensures
        (r.0 as int, r.1@) == or_rest(src@, i as int, acc@),
        i <= r.0 <= src@.len(),
    decreases src@.len() - i, 44int,
{
    let ghost target = or_rest(src@, i as int, acc@);
    let mut i2 = i;
    let mut acc = acc;
    loop
        invariant
            i <= i2 <= src@.len(),
            or_rest(src@, i2 as int, acc@) == target,
        decreases src@.len() - i2,
    {
        match bool_add_expr_right_at(src, i2) {
            Some((j, e)) => {
                if i2 < j && j <= src.len() {
                    acc = Bool::Or(Box::new(acc), Box::new(e));
                    i2 = j;
                } else {
                    return (i2, acc);
                }
            },
            None => {
                return (i2, acc);
            },
        }
    }
}

pub fn bool_add_expr_right_at(src: &Source, i: usize) -> (r: Option<(usize, Bool)>)
    requires
        i <= src@.len(),
    ensures
        bool_view(r) == bool_add_expr_right(src@, i as int),
        ends(r, src@, i as int),
    decreases src@.len() - i, 43int,
{
    let a = space0_at(src, i);
    match tag_at(src, a, "||") {
        None => None,
        Some(b) => {
            let c = space0_at(src, b);
            if !(i < c && c <= src.len()) {
                return None;
            }
            match bool_mult_expr_at(src, c) {
                Some((d, e)) => Some((space0_at(src, d), e)),
                None => None,
            }
        },
    }
}

pub fn bool_mult_expr_at(src: &Source, i: usize) -> (r: Option<(usize, Bool)>)
    requires
        i <= src@.len(),
    ensures
        bool_view(r) == bool_mult_expr(src@, i as int),
        ends(r, src@, i as int),
    decreases src@.len() - i, 42int,
{
    let a = space0_at(src, i);
    match factor_at(src, a) {
        None => None,
        Some((b, e)) => {
            let (c, res) = and_rest_at(src, b, e);
            Some((c, res))
        },
    }
}

#[verifier::loop_isolation(false)]
pub fn and_rest_at(src: &Source, i: usize, acc: Bool) -> (r: (usize, Bool))
    requires
        i <= src@.len(),
    ensures
        (r.0 as int, r.1@) == and_rest(src@, i as int, acc@),
        i <= r.0 <= src@.len(),
    decreases src@.len() - i, 41int,
{
    let ghost target = and_rest(src@, i as int, acc@);
    let mut i2 = i;
    let mut acc = acc;
    loop
        invariant
            i <= i2 <= src@.len(),
            and_rest(src@, i2 as int, acc@) == target,
        decreases src@.len() - i2,
    {
        match bool_mult_expr_right_at(src, i2) {
            Some((j, e)) => {
                if i2 < j && j <= src.len() {
                    acc = Bool::And(Box::new(acc), Box::new(e));
                    i2 = j;
                } else {
                    return (i2, acc);
                }
            },
            None => {
                return (i2, acc);
            },
        }
    }
}

pub fn bool_mult_expr_right_at(src: &Source, i: usize) -> (r: Option<(usize, Bool)>)
    requires
        i <= src@.len(),
    ensures
        bool_view(r) == bool_mult_expr_right(src@, i as int),
        ends(r, src@, i as int),
    decreases src@.len() - i, 39int,
{
    let a = space0_at(src, i);
    match tag_at(src, a, "&&") {
        None => None,
        Some(b) => {
            let c = space0_at(src, b);
            if !(i < c && c <= src.len()) {
                return None;
            }
            match factor_at(src, c) {
                Some((d, e)) => Some((space0_at(src, d), e)),
                None => None,
            }
        },
    }
}

pub fn factor_at(src: &Source, i: usize) -> (r: Option<(usize, Bool)>)
    requires
        i <= src@.len(),
    ensures
        bool_view(r) == factor(src@, i as int),
        ends(r, src@, i as int),
    decreases src@.len() - i, 40int,
{
    let fa = quantifier_at(src, i, true);
    if fa.is_some() {
        return fa;
    }
    let ex = quantifier_at(src, i, false);
    if ex.is_some() {
        return ex;
    }
    let c = factor_compare_at(src, i);
    if c.is_some() {
        return c;
    }
    let id = factor_id_at(src, i);
    if id.is_some() {
        return id;
    }
    let n = factor_not_at(src, i);
    if n.is_some() {
        return n;
    }
    factor_paren_at(src, i)
}

pub fn quantifier_at(src: &Source, i: usize, all: bool) -> (r: Option<(usize, Bool)>)
    requires
        i <= src@.len(),
    ensures
        bool_view(r) == quantifier(src@, i as int, all),
        ends(r, src@, i as int),
    decreases src@.len() - i, 39int,
{
    let t = if all {
        tag_at(src, i, "forall")
    } else {
        tag_at(src, i, "exists")
    };
    let a = match t {
        None => {
            return None;
        },
        Some(a) => a,
    };
    let b = match space1_at(src, a) {
        None => {
            return None;
        },
        Some(b) => b,
    };
    let (c, v) = match variable_single_at(src, b) {
        None => {
            return None;
        },
        Some(x) => x,
    };
    let d = match space1_at(src, c) {
        None => {
            return None;
        },
        Some(d) => d,
    };
    if !(i < d && d <= src.len()) {
        return None;
    }
    match bool_expr_at(src, d) {
        Some((e, body)) => {
            if all {
                Some((e, Bool::ForAll(v, Box::new(body))))
            } else {
                Some((e, Bool::Exists(v, Box::new(body))))
            }
        },
        None => None,
    }
}

pub fn compare_tag_at(src: &Source, i: usize, k: usize) -> (r: Option<usize>)
    requires
        i <= src@.len(),
        k < 6,
    ensures
        crate::parser::lexical::pos_of_opt(r) == tag(src@, i as int, compare_op(k as int)),
        r matches Some(j) ==> j <= src@.len(),
{
    if k == 0 {
        tag_at(src, i, "==")
    } else if k == 1 {
        tag_at(src, i, "!=")
    } else if k == 2 {
        tag_at(src, i, ">=")
    } else if k == 3 {
        tag_at(src, i, ">")
    } else if k == 4 {
        tag_at(src, i, "<=")
    } else {
        tag_at(src, i, "<")
    }
}

pub fn factor_compare_op_at(src: &Source, i: usize, k: usize) -> (r: Option<(usize, Bool)>)
    requires
        i <= src@.len(),
        k < 6,
    ensures
        bool_view(r) == factor_compare_op(src@, i as int, k as int),
        ends(r, src@, i as int),
    decreases src@.len() - i, 31int,
{
    let (a, lhs) = match math_expr_at(src, i) {
        None => {
            return None;
        },
        Some(x) => x,
    };
    let a2 = space0_at(src, a);
    let c = match compare_tag_at(src, a2, k) {
        None => {
            return None;
        },
        Some(c) => c,
    };
    let d = space0_at(src, c);
    if !(i < d && d <= src.len()) {
        return None;
    }
    match math_expr_at(src, d) {
        Some((e, rhs)) => Some((e, compare_build_exec(k, lhs, rhs))),
        None => None,
    }
}

fn compare_build_exec(k: usize, lhs: Expr, rhs: Expr) -> (r: Bool)
    requires
        k < 6,
    ensures
        r@ == compare_build(k as int, lhs@, rhs@),
{
    if k == 0 {
        Bool::Equal(lhs, rhs)
    } else if k == 1 {
        let eq = Bool::Equal(lhs, rhs);
        assert(eq@ == SBool::Equal(lhs@, rhs@));
        Bool::Not(Box::new(eq))
    } else if k == 2 {
        Bool::GreaterEqual(lhs, rhs)
    } else if k == 3 {
        Bool::GreaterThan(lhs, rhs)
    } else if k == 4 {
        Bool::LowerEqual(lhs, rhs)
    } else {
        Bool::LowerThan(lhs, rhs)
    }
}

/// The first comparison that reads, in the order of `compare_op`.
pub fn factor_compare_at(src: &Source, i: usize) -> (r: Option<(usize, Bool)>)
    requires
        i <= src@.len(),
    ensures
        bool_view(r) == factor_compare(src@, i as int, 0),
        ends(r, src@, i as int),
    decreases src@.len() - i, 38int,
{
    let mut k: usize = 0;
    while k < 6
        invariant
            k <= 6,
            i <= src@.len(),
            factor_compare(src@, i as int, 0) == factor_compare(src@, i as int, k as int),
        decreases 6 - k,
    {
        let c = factor_compare_op_at(src, i, k);
        if c.is_some() {
            return c;
        }
        k = k + 1;
    }
    None
}

pub fn factor_id_at(src: &Source, i: usize) -> (r: Option<(usize, Bool)>)
    requires
        i <= src@.len(),
    ensures
        bool_view(r) == factor_id(src@, i as int),
        ends(r, src@, i as int),
    decreases src@.len() - i, 39int,
{
    match tag_at(src, i, "true") {
        Some(j) => Some((j, Bool::True)),
        None => match tag_at(src, i, "false") {
            Some(j) => Some((j, Bool::False)),
            None => bool_expr_r_value_at(src, i),
        },
    }
}

pub fn bool_expr_r_value_at(src: &Source, i: usize) -> (r: Option<(usize, Bool)>)
    requires
        i <= src@.len(),
    ensures
        bool_view(r) == bool_expr_r_value(src@, i as int),
        ends(r, src@, i as int),
    decreases src@.len() - i, 20int,
{
    match function_call_at(src, i) {
        Some((j, v)) => Some((j, Bool::Value(Box::new(v)))),
        None => match variable_val_at(src, i) {
            Some((j, v)) => Some((j, Bool::Value(Box::new(v)))),
            None => None,
        },
    }
}

pub fn factor_not_at(src: &Source, i: usize) -> (r: Option<(usize, Bool)>)
    requires
        i <= src@.len(),
    ensures
        bool_view(r) == factor_not(src@, i as int),
        ends(r, src@, i as int),
    decreases src@.len() - i, 39int,
{
    match tag_at(src, i, "!") {
        None => None,
        Some(a) => {
            let b = space0_at(src, a);
            if !(i < b && b <= src.len()) {
                return None;
            }
            match factor_at(src, b) {
                Some((c, e)) => Some((c, Bool::Not(Box::new(e)))),
                None => None,
            }
        },
    }
}

pub fn factor_paren_at(src: &Source, i: usize) -> (r: Option<(usize, Bool)>)
    requires
        i <= src@.len(),
    ensures
        bool_view(r) == factor_paren(src@, i as int),
        ends(r, src@, i as int),
    decreases src@.len() - i, 39int,
{
    let a = space0_at(src, i);
    match tag_at(src, a, "(") {
        None => None,
        Some(b) => {
            let c = space0_at(src, b);
            if !(i < c && c <= src.len()) {
                return None;
            }
            match bool_expr_at(src, c) {
                None => None,
                Some((d, e)) => {
                    let d2 = space0_at(src, d);
                    match tag_at(src, d2, ")") {
                        Some(g) => Some((space0_at(src, g), e)),
                        None => None,
                    }
                },
            }
        },
    }
}

} // verus!
