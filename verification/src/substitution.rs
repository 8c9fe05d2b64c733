//! Substitution of values for variables in formulas: the assignment rule of
//! the weakest-precondition calculus.
use vstd::prelude::*;
use crate::ast::{Bool, Expr, SBool, SExpr, SValue, SVariable, Value, Variable, m_value};
use crate::copying::{copy_bool, copy_string, copy_value, copy_var};
use crate::equality::{eq_string, eq_var};
use crate::variables::{vars_bool, vars_expr, vars_value, vars_values, vars_var};

verus! {

// ------------------------------------------------------------------
// Specification
// ------------------------------------------------------------------
/// The elements of an array literal as seen through `Value::Array`.
pub open spec fn m_elems(vs: Seq<Value>) -> Seq<SValue> {
    Seq::new(vs.len(), |i: int| if 0 <= i < vs.len() { m_value(vs[i]) } else { SValue::Unit })
}

/// Indexing the array literal `elems` (bound to `name`) at `idx`, starting at
/// position `k`: `if idx == k { elems[k] } else { ... }`, ending with the
/// element of the array variable itself (indices that no `i32` can hold are
/// not expanded).
pub open spec fn array_chain(name: Seq<char>, elems: Seq<SValue>, k: nat, idx: SValue) -> SValue
    decreases elems.len() - k,
{
    if k >= elems.len() || k > i32::MAX {
        SValue::Variable(SVariable::ArrayElem(name, Box::new(idx)))
    } else {
        SValue::Ternary(
            Box::new(SBool::Equal(SExpr::Value(Box::new(idx)), SExpr::Number(k as i32))),
            Box::new(elems[k as int]),
            Box::new(array_chain(name, elems, k + 1, idx)),
        )
    }
}

/// `v` with every occurrence of the variable `x` replaced by `r`.  Where `x`
/// is an array name and `r` an array literal, `x[i]` becomes the element of
/// the literal at `i`.
pub open spec fn sw_value(v: SValue, x: SVariable, r: SValue) -> SValue
    decreases v,
{
    match v {
        SValue::Variable(w) => if w == x {
            r
        } else {
            sw_elem(w, x, r)
        },
        SValue::Expr(e) => SValue::Expr(sw_expr(e, x, r)),
        SValue::Bool(b) => SValue::Bool(sw_bool(b, x, r)),
        SValue::Tuple(vs) => SValue::Tuple(
            Seq::new(vs.len(), |i: int| if 0 <= i < vs.len() { sw_value(vs[i], x, r) } else { SValue::Unit }),
        ),
        SValue::Array(vs) => SValue::Array(
            Seq::new(vs.len(), |i: int| if 0 <= i < vs.len() { sw_value(vs[i], x, r) } else { SValue::Unit }),
        ),
        SValue::FunctionCall(n, vs) => SValue::FunctionCall(
            n,
            Seq::new(vs.len(), |i: int| if 0 <= i < vs.len() { sw_value(vs[i], x, r) } else { SValue::Unit }),
        ),
        SValue::Dereference(a) => SValue::Dereference(Box::new(sw_value(*a, x, r))),
        SValue::Reference(a) => SValue::Reference(Box::new(sw_value(*a, x, r))),
        SValue::ReferenceMutable(a) => SValue::ReferenceMutable(Box::new(sw_value(*a, x, r))),
        SValue::Unit => SValue::Unit,
        SValue::Unknown => SValue::Unknown,
        SValue::Ternary(c, a, b) => SValue::Ternary(
            Box::new(sw_bool(*c, x, r)),
            Box::new(sw_value(*a, x, r)),
            Box::new(sw_value(*b, x, r)),
        ),
    }
}

/// A variable other than `x`, after the substitution in its index.
pub open spec fn sw_elem(w: SVariable, x: SVariable, r: SValue) -> SValue
    decreases w,
{
    match w {
        SVariable::ArrayElem(n, i) => {
            let i2 = sw_value(*i, x, r);
            if x == SVariable::Named(n) && r is Array {
                array_chain(n, r->Array_0, 0, i2)
            } else {
                SValue::Variable(SVariable::ArrayElem(n, Box::new(i2)))
            }
        },
        SVariable::TupleElem(n, i) => SValue::Variable(
            SVariable::TupleElem(n, Box::new(sw_value(*i, x, r))),
        ),
        _ => SValue::Variable(w),
    }
}

pub open spec fn sw_expr(e: SExpr, x: SVariable, r: SValue) -> SExpr
    decreases e,
{
    match e {
        SExpr::Number(n) => SExpr::Number(n),
        SExpr::Value(v) => SExpr::Value(Box::new(sw_value(*v, x, r))),
        SExpr::Op(a, o, b) => SExpr::Op(Box::new(sw_expr(*a, x, r)), o, Box::new(sw_expr(*b, x, r))),
    }
}

/// A quantifier that binds `x` hides it from the substitution.
pub open spec fn sw_bool(b: SBool, x: SVariable, r: SValue) -> SBool
    decreases b,
{
    match b {
        SBool::And(p, q) => SBool::And(Box::new(sw_bool(*p, x, r)), Box::new(sw_bool(*q, x, r))),
        SBool::Or(p, q) => SBool::Or(Box::new(sw_bool(*p, x, r)), Box::new(sw_bool(*q, x, r))),
        SBool::Not(p) => SBool::Not(Box::new(sw_bool(*p, x, r))),
        SBool::Value(v) => SBool::Value(Box::new(sw_value(*v, x, r))),
        SBool::True => SBool::True,
        SBool::False => SBool::False,
        SBool::Equal(p, q) => SBool::Equal(sw_expr(p, x, r), sw_expr(q, x, r)),
        SBool::GreaterEqual(p, q) => SBool::GreaterEqual(sw_expr(p, x, r), sw_expr(q, x, r)),
        SBool::LowerEqual(p, q) => SBool::LowerEqual(sw_expr(p, x, r), sw_expr(q, x, r)),
        SBool::GreaterThan(p, q) => SBool::GreaterThan(sw_expr(p, x, r), sw_expr(q, x, r)),
        SBool::LowerThan(p, q) => SBool::LowerThan(sw_expr(p, x, r), sw_expr(q, x, r)),
        SBool::ForAll(u, p) => if u == x {
            b
        } else {
            SBool::ForAll(u, Box::new(sw_bool(*p, x, r)))
        },
        SBool::Exists(u, p) => if u == x {
            b
        } else {
            SBool::Exists(u, Box::new(sw_bool(*p, x, r)))
        },
    }
}

/// `v` after the assignment `a[k] = r`: every element `a[z]` becomes
/// `if z == k { r } else { a[z] }`.
pub open spec fn isw_value(v: SValue, a: Seq<char>, k: SValue, r: SValue) -> SValue
    decreases v,
{
    match v {
        SValue::Variable(w) => isw_elem(w, a, k, r),
        SValue::Expr(e) => SValue::Expr(isw_expr(e, a, k, r)),
        SValue::Bool(b) => SValue::Bool(isw_bool(b, a, k, r)),
        SValue::Tuple(vs) => SValue::Tuple(
            Seq::new(vs.len(), |i: int| if 0 <= i < vs.len() { isw_value(vs[i], a, k, r) } else { SValue::Unit }),
        ),
        SValue::Array(vs) => SValue::Array(
            Seq::new(vs.len(), |i: int| if 0 <= i < vs.len() { isw_value(vs[i], a, k, r) } else { SValue::Unit }),
        ),
        SValue::FunctionCall(n, vs) => SValue::FunctionCall(
            n,
            Seq::new(vs.len(), |i: int| if 0 <= i < vs.len() { isw_value(vs[i], a, k, r) } else { SValue::Unit }),
        ),
        SValue::Dereference(p) => SValue::Dereference(Box::new(isw_value(*p, a, k, r))),
        SValue::Reference(p) => SValue::Reference(Box::new(isw_value(*p, a, k, r))),
        SValue::ReferenceMutable(p) => SValue::ReferenceMutable(Box::new(isw_value(*p, a, k, r))),
        SValue::Unit => SValue::Unit,
        SValue::Unknown => SValue::Unknown,
        SValue::Ternary(c, p, q) => SValue::Ternary(
            Box::new(isw_bool(*c, a, k, r)),
            Box::new(isw_value(*p, a, k, r)),
            Box::new(isw_value(*q, a, k, r)),
        ),
    }
}

pub open spec fn isw_elem(w: SVariable, a: Seq<char>, k: SValue, r: SValue) -> SValue
    decreases w,
{
    match w {
        SVariable::ArrayElem(n, i) => {
            let i2 = isw_value(*i, a, k, r);
            if n == a {
                SValue::Ternary(
                    Box::new(SBool::Equal(SExpr::Value(Box::new(i2)), SExpr::Value(Box::new(k)))),
                    Box::new(r),
                    Box::new(SValue::Variable(SVariable::ArrayElem(n, Box::new(i2)))),
                )
            } else {
                SValue::Variable(SVariable::ArrayElem(n, Box::new(i2)))
            }
        },
        SVariable::TupleElem(n, i) => SValue::Variable(
            SVariable::TupleElem(n, Box::new(isw_value(*i, a, k, r))),
        ),
        _ => SValue::Variable(w),
    }
}

pub open spec fn isw_expr(e: SExpr, a: Seq<char>, k: SValue, r: SValue) -> SExpr
    decreases e,
{
    match e {
        SExpr::Number(n) => SExpr::Number(n),
        SExpr::Value(v) => SExpr::Value(Box::new(isw_value(*v, a, k, r))),
        SExpr::Op(p, o, q) => SExpr::Op(Box::new(isw_expr(*p, a, k, r)), o, Box::new(isw_expr(*q, a, k, r))),
    }
}

/// A quantifier over a variable named like the array hides the array.
pub open spec fn isw_bool(b: SBool, a: Seq<char>, k: SValue, r: SValue) -> SBool
    decreases b,
{
    match b {
        SBool::And(p, q) => SBool::And(Box::new(isw_bool(*p, a, k, r)), Box::new(isw_bool(*q, a, k, r))),
        SBool::Or(p, q) => SBool::Or(Box::new(isw_bool(*p, a, k, r)), Box::new(isw_bool(*q, a, k, r))),
        SBool::Not(p) => SBool::Not(Box::new(isw_bool(*p, a, k, r))),
        SBool::Value(v) => SBool::Value(Box::new(isw_value(*v, a, k, r))),
        SBool::True => SBool::True,
        SBool::False => SBool::False,
        SBool::Equal(p, q) => SBool::Equal(isw_expr(p, a, k, r), isw_expr(q, a, k, r)),
        SBool::GreaterEqual(p, q) => SBool::GreaterEqual(isw_expr(p, a, k, r), isw_expr(q, a, k, r)),
        SBool::LowerEqual(p, q) => SBool::LowerEqual(isw_expr(p, a, k, r), isw_expr(q, a, k, r)),
        SBool::GreaterThan(p, q) => SBool::GreaterThan(isw_expr(p, a, k, r), isw_expr(q, a, k, r)),
        SBool::LowerThan(p, q) => SBool::LowerThan(isw_expr(p, a, k, r), isw_expr(q, a, k, r)),
        SBool::ForAll(u, p) => if u == SVariable::Named(a) {
            b
        } else {
            SBool::ForAll(u, Box::new(isw_bool(*p, a, k, r)))
        },
        SBool::Exists(u, p) => if u == SVariable::Named(a) {
            b
        } else {
            SBool::Exists(u, Box::new(isw_bool(*p, a, k, r)))
        },
    }
}


// ------------------------------------------------------------------
// Laws
// ------------------------------------------------------------------
/// `x` is a variable (not `_`), and none of the variables `vs` is `x` nor,
/// where `r` is an array literal, an element of the array named by `x`:
/// the substitution of `r` for `x` has nothing to replace.
pub open spec fn untouched(vs: Set<SVariable>, x: SVariable, r: SValue) -> bool {
    &&& x !is Empty
    &&& forall|w: SVariable| #[trigger] vs.contains(w) ==> w != x && !(r is Array && (w matches SVariable::ArrayElem(n, _) && x == SVariable::Named(n)))
}

/// None of the variables `vs` is an element of the array `a`.
pub open spec fn no_element_of(vs: Set<SVariable>, a: Seq<char>) -> bool {
    forall|w: SVariable| #[trigger] vs.contains(w) ==> !(w matches SVariable::ArrayElem(n, _) && n == a)
}

proof fn lemma_values_have(s: Seq<SValue>, i: int)
    requires
        0 <= i < s.len(),
    ensures
        vars_value(s[i]).subset_of(vars_values(s)),
    decreases s.len(),
{
    if i < s.len() - 1 {
        lemma_values_have(s.drop_last(), i);
        assert(s.drop_last()[i] == s[i]);
    }
}

proof fn lemma_untouched_sub(a: Set<SVariable>, b: Set<SVariable>, x: SVariable, r: SValue)
    requires
        untouched(b, x, r),
        a.subset_of(b),
    ensures
        untouched(a, x, r),
{
    assert forall|w: SVariable| #[trigger] a.contains(w) implies w != x && !(r is Array && (w matches SVariable::ArrayElem(n, _) && x == SVariable::Named(n))) by {
        assert(b.contains(w));
    }
}

proof fn lemma_no_element_sub(a: Set<SVariable>, b: Set<SVariable>, n: Seq<char>)
    requires
        no_element_of(b, n),
        a.subset_of(b),
    ensures
        no_element_of(a, n),
{
    assert forall|w: SVariable| #[trigger] a.contains(w) implies !(w matches SVariable::ArrayElem(m, _) && m == n) by {
        assert(b.contains(w));
    }
}

proof fn lemma_sw_values_unused(s: Seq<SValue>, v: SValue, x: SVariable, r: SValue)
    requires
        untouched(vars_values(s), x, r),
        forall|i: int| 0 <= i < s.len() ==> decreases_to!(v => #[trigger] s[i]),
    ensures
        forall|i: int| 0 <= i < s.len() ==> #[trigger] sw_value(s[i], x, r) == s[i],
    decreases v, 0int,
{
    assert forall|i: int| 0 <= i < s.len() implies #[trigger] sw_value(s[i], x, r) == s[i] by {
        lemma_values_have(s, i);
        lemma_untouched_sub(vars_value(s[i]), vars_values(s), x, r);
        lemma_sw_value_unused(s[i], x, r);
    }
}

proof fn lemma_sw_value_unused(v: SValue, x: SVariable, r: SValue)
    requires
        untouched(vars_value(v), x, r),
    ensures
        sw_value(v, x, r) == v,
    decreases v, 1int,
{
    match v {
        SValue::Variable(w) => {
            lemma_sw_elem_unused(w, x, r);
        },
        SValue::Expr(e) => lemma_sw_expr_unused(e, x, r),
        SValue::Bool(b) => lemma_sw_bool_unused(b, x, r),
        SValue::Tuple(s) => {
            lemma_sw_values_unused(s, v, x, r);
            let t = sw_value(v, x, r)->Tuple_0;
            assert forall|i: int| 0 <= i < s.len() implies t[i] == s[i] by {
                assert(sw_value(s[i], x, r) == s[i]);
            }
            assert(t =~= s);
        },
        SValue::Array(s) => {
            lemma_sw_values_unused(s, v, x, r);
            let t = sw_value(v, x, r)->Array_0;
            assert forall|i: int| 0 <= i < s.len() implies t[i] == s[i] by {
                assert(sw_value(s[i], x, r) == s[i]);
            }
            assert(t =~= s);
        },
        SValue::FunctionCall(_, s) => {
            lemma_sw_values_unused(s, v, x, r);
            let t = sw_value(v, x, r)->FunctionCall_1;
            assert forall|i: int| 0 <= i < s.len() implies t[i] == s[i] by {
                assert(sw_value(s[i], x, r) == s[i]);
            }
            assert(t =~= s);
        },
        SValue::Dereference(a) => lemma_sw_value_unused(*a, x, r),
        SValue::Reference(a) => lemma_sw_value_unused(*a, x, r),
        SValue::ReferenceMutable(a) => lemma_sw_value_unused(*a, x, r),
        SValue::Unit => {},
        SValue::Unknown => {},
        SValue::Ternary(c, a, b) => {
            lemma_untouched_sub(vars_bool(*c), vars_value(v), x, r);
            lemma_untouched_sub(vars_value(*a), vars_value(v), x, r);
            lemma_untouched_sub(vars_value(*b), vars_value(v), x, r);
            lemma_sw_bool_unused(*c, x, r);
            lemma_sw_value_unused(*a, x, r);
            lemma_sw_value_unused(*b, x, r);
        },
    }
}

proof fn lemma_sw_elem_unused(w: SVariable, x: SVariable, r: SValue)
    requires
        untouched(vars_var(w), x, r),
    ensures
        w != x ==> sw_elem(w, x, r) == SValue::Variable(w),
        w is Empty || w != x,
    decreases w, 1int,
{
    match w {
        SVariable::ArrayElem(n, i) => {
            assert(vars_var(w).contains(w));
            lemma_untouched_sub(vars_value(*i), vars_var(w), x, r);
            lemma_sw_value_unused(*i, x, r);
        },
        SVariable::TupleElem(n, i) => {
            assert(vars_var(w).contains(w));
            lemma_untouched_sub(vars_value(*i), vars_var(w), x, r);
            lemma_sw_value_unused(*i, x, r);
        },
        SVariable::Named(_) => {
            assert(vars_var(w).contains(w));
        },
        SVariable::Empty => {},
    }
}

proof fn lemma_sw_expr_unused(e: SExpr, x: SVariable, r: SValue)
    requires
        untouched(vars_expr(e), x, r),
    ensures
        sw_expr(e, x, r) == e,
    decreases e, 1int,
{
    match e {
        SExpr::Number(_) => {},
        SExpr::Value(v) => lemma_sw_value_unused(*v, x, r),
        SExpr::Op(a, _, b) => {
            lemma_untouched_sub(vars_expr(*a), vars_expr(e), x, r);
            lemma_untouched_sub(vars_expr(*b), vars_expr(e), x, r);
            lemma_sw_expr_unused(*a, x, r);
            lemma_sw_expr_unused(*b, x, r);
        },
    }
}

proof fn lemma_untouched_pair(p: SExpr, q: SExpr, x: SVariable, r: SValue)
    requires
        untouched(vars_expr(p) + vars_expr(q), x, r),
    ensures
        untouched(vars_expr(p), x, r),
        untouched(vars_expr(q), x, r),
{
    lemma_untouched_sub(vars_expr(p), vars_expr(p) + vars_expr(q), x, r);
    lemma_untouched_sub(vars_expr(q), vars_expr(p) + vars_expr(q), x, r);
}

proof fn lemma_sw_bool_unused(b: SBool, x: SVariable, r: SValue)
    requires
        untouched(vars_bool(b), x, r),
    ensures
        sw_bool(b, x, r) == b,
    decreases b, 1int,
{
    match b {
        SBool::And(p, q) => {
            lemma_untouched_sub(vars_bool(*p), vars_bool(b), x, r);
            lemma_untouched_sub(vars_bool(*q), vars_bool(b), x, r);
            lemma_sw_bool_unused(*p, x, r);
            lemma_sw_bool_unused(*q, x, r);
        },
        SBool::Or(p, q) => {
            lemma_untouched_sub(vars_bool(*p), vars_bool(b), x, r);
            lemma_untouched_sub(vars_bool(*q), vars_bool(b), x, r);
            lemma_sw_bool_unused(*p, x, r);
            lemma_sw_bool_unused(*q, x, r);
        },
        SBool::Not(p) => lemma_sw_bool_unused(*p, x, r),
        SBool::Value(v) => lemma_sw_value_unused(*v, x, r),
        SBool::True => {},
        SBool::False => {},
        SBool::Equal(p, q) => {
            lemma_untouched_pair(p, q, x, r);
            lemma_sw_expr_unused(p, x, r);
            lemma_sw_expr_unused(q, x, r);
        },
        SBool::GreaterEqual(p, q) => {
            lemma_untouched_pair(p, q, x, r);
            lemma_sw_expr_unused(p, x, r);
            lemma_sw_expr_unused(q, x, r);
        },
        SBool::LowerEqual(p, q) => {
            lemma_untouched_pair(p, q, x, r);
            lemma_sw_expr_unused(p, x, r);
            lemma_sw_expr_unused(q, x, r);
        },
        SBool::GreaterThan(p, q) => {
            lemma_untouched_pair(p, q, x, r);
            lemma_sw_expr_unused(p, x, r);
            lemma_sw_expr_unused(q, x, r);
        },
        SBool::LowerThan(p, q) => {
            lemma_untouched_pair(p, q, x, r);
            lemma_sw_expr_unused(p, x, r);
            lemma_sw_expr_unused(q, x, r);
        },
        SBool::ForAll(u, p) => {
            lemma_untouched_sub(vars_bool(*p), vars_bool(b), x, r);
            lemma_sw_bool_unused(*p, x, r);
        },
        SBool::Exists(u, p) => {
            lemma_untouched_sub(vars_bool(*p), vars_bool(b), x, r);
            lemma_sw_bool_unused(*p, x, r);
        },
    }
}

/// Substituting a value for a variable that a formula does not use gives
/// the formula back unchanged (where the value is an array literal, the
/// formula must not use an element of that array either).
pub proof fn law_swap_unused(b: SBool, x: SVariable, r: SValue)
    requires
        untouched(vars_bool(b), x, r),
    ensures
        sw_bool(b, x, r) == b,
{
    lemma_sw_bool_unused(b, x, r);
}

proof fn lemma_isw_values_unused(s: Seq<SValue>, v: SValue, a: Seq<char>, k: SValue, r: SValue)
    requires
        no_element_of(vars_values(s), a),
        forall|i: int| 0 <= i < s.len() ==> decreases_to!(v => #[trigger] s[i]),
    ensures
        forall|i: int| 0 <= i < s.len() ==> #[trigger] isw_value(s[i], a, k, r) == s[i],
    decreases v, 0int,
{
    assert forall|i: int| 0 <= i < s.len() implies #[trigger] isw_value(s[i], a, k, r) == s[i] by {
        lemma_values_have(s, i);
        lemma_no_element_sub(vars_value(s[i]), vars_values(s), a);
        lemma_isw_value_unused(s[i], a, k, r);
    }
}

proof fn lemma_isw_value_unused(v: SValue, a: Seq<char>, k: SValue, r: SValue)
    requires
        no_element_of(vars_value(v), a),
    ensures
        isw_value(v, a, k, r) == v,
    decreases v, 1int,
{
    match v {
        SValue::Variable(w) => {
            lemma_isw_elem_unused(w, a, k, r);
        },
        SValue::Expr(e) => lemma_isw_expr_unused(e, a, k, r),
        SValue::Bool(b) => lemma_isw_bool_unused(b, a, k, r),
        SValue::Tuple(s) => {
            lemma_isw_values_unused(s, v, a, k, r);
            let t = isw_value(v, a, k, r)->Tuple_0;
            assert forall|i: int| 0 <= i < s.len() implies t[i] == s[i] by {
                assert(isw_value(s[i], a, k, r) == s[i]);
            }
            assert(t =~= s);
        },
        SValue::Array(s) => {
            lemma_isw_values_unused(s, v, a, k, r);
            let t = isw_value(v, a, k, r)->Array_0;
            assert forall|i: int| 0 <= i < s.len() implies t[i] == s[i] by {
                assert(isw_value(s[i], a, k, r) == s[i]);
            }
            assert(t =~= s);
        },
        SValue::FunctionCall(_, s) => {
            lemma_isw_values_unused(s, v, a, k, r);
            let t = isw_value(v, a, k, r)->FunctionCall_1;
            assert forall|i: int| 0 <= i < s.len() implies t[i] == s[i] by {
                assert(isw_value(s[i], a, k, r) == s[i]);
            }
            assert(t =~= s);
        },
        SValue::Dereference(p) => lemma_isw_value_unused(*p, a, k, r),
        SValue::Reference(p) => lemma_isw_value_unused(*p, a, k, r),
        SValue::ReferenceMutable(p) => lemma_isw_value_unused(*p, a, k, r),
        SValue::Unit => {},
        SValue::Unknown => {},
        SValue::Ternary(c, p, q) => {
            lemma_no_element_sub(vars_bool(*c), vars_value(v), a);
            lemma_no_element_sub(vars_value(*p), vars_value(v), a);
            lemma_no_element_sub(vars_value(*q), vars_value(v), a);
            lemma_isw_bool_unused(*c, a, k, r);
            lemma_isw_value_unused(*p, a, k, r);
            lemma_isw_value_unused(*q, a, k, r);
        },
    }
}

proof fn lemma_isw_elem_unused(w: SVariable, a: Seq<char>, k: SValue, r: SValue)
    requires
        no_element_of(vars_var(w), a),
    ensures
        isw_elem(w, a, k, r) == SValue::Variable(w),
    decreases w, 1int,
{
    match w {
        SVariable::ArrayElem(n, i) => {
            assert(vars_var(w).contains(w));
            lemma_no_element_sub(vars_value(*i), vars_var(w), a);
            lemma_isw_value_unused(*i, a, k, r);
        },
        SVariable::TupleElem(n, i) => {
            lemma_no_element_sub(vars_value(*i), vars_var(w), a);
            lemma_isw_value_unused(*i, a, k, r);
        },
        _ => {},
    }
}

proof fn lemma_isw_expr_unused(e: SExpr, a: Seq<char>, k: SValue, r: SValue)
    requires
        no_element_of(vars_expr(e), a),
    ensures
        isw_expr(e, a, k, r) == e,
    decreases e, 1int,
{
    match e {
        SExpr::Number(_) => {},
        SExpr::Value(v) => lemma_isw_value_unused(*v, a, k, r),
        SExpr::Op(p, _, q) => {
            lemma_no_element_sub(vars_expr(*p), vars_expr(e), a);
            lemma_no_element_sub(vars_expr(*q), vars_expr(e), a);
            lemma_isw_expr_unused(*p, a, k, r);
            lemma_isw_expr_unused(*q, a, k, r);
        },
    }
}

proof fn lemma_no_element_pair(p: SExpr, q: SExpr, a: Seq<char>)
    requires
        no_element_of(vars_expr(p) + vars_expr(q), a),
    ensures
        no_element_of(vars_expr(p), a),
        no_element_of(vars_expr(q), a),
{
    lemma_no_element_sub(vars_expr(p), vars_expr(p) + vars_expr(q), a);
    lemma_no_element_sub(vars_expr(q), vars_expr(p) + vars_expr(q), a);
}

proof fn lemma_isw_bool_unused(b: SBool, a: Seq<char>, k: SValue, r: SValue)
    requires
        no_element_of(vars_bool(b), a),
    ensures
        isw_bool(b, a, k, r) == b,
    decreases b, 1int,
{
    match b {
        SBool::And(p, q) => {
            lemma_no_element_sub(vars_bool(*p), vars_bool(b), a);
            lemma_no_element_sub(vars_bool(*q), vars_bool(b), a);
            lemma_isw_bool_unused(*p, a, k, r);
            lemma_isw_bool_unused(*q, a, k, r);
        },
        SBool::Or(p, q) => {
            lemma_no_element_sub(vars_bool(*p), vars_bool(b), a);
            lemma_no_element_sub(vars_bool(*q), vars_bool(b), a);
            lemma_isw_bool_unused(*p, a, k, r);
            lemma_isw_bool_unused(*q, a, k, r);
        },
        SBool::Not(p) => lemma_isw_bool_unused(*p, a, k, r),
        SBool::Value(v) => lemma_isw_value_unused(*v, a, k, r),
        SBool::True => {},
        SBool::False => {},
        SBool::Equal(p, q) => {
            lemma_no_element_pair(p, q, a);
            lemma_isw_expr_unused(p, a, k, r);
            lemma_isw_expr_unused(q, a, k, r);
        },
        SBool::GreaterEqual(p, q) => {
            lemma_no_element_pair(p, q, a);
            lemma_isw_expr_unused(p, a, k, r);
            lemma_isw_expr_unused(q, a, k, r);
        },
        SBool::LowerEqual(p, q) => {
            lemma_no_element_pair(p, q, a);
            lemma_isw_expr_unused(p, a, k, r);
            lemma_isw_expr_unused(q, a, k, r);
        },
        SBool::GreaterThan(p, q) => {
            lemma_no_element_pair(p, q, a);
            lemma_isw_expr_unused(p, a, k, r);
            lemma_isw_expr_unused(q, a, k, r);
        },
        SBool::LowerThan(p, q) => {
            lemma_no_element_pair(p, q, a);
            lemma_isw_expr_unused(p, a, k, r);
            lemma_isw_expr_unused(q, a, k, r);
        },
        SBool::ForAll(u, p) => {
            lemma_no_element_sub(vars_bool(*p), vars_bool(b), a);
            lemma_isw_bool_unused(*p, a, k, r);
        },
        SBool::Exists(u, p) => {
            lemma_no_element_sub(vars_bool(*p), vars_bool(b), a);
            lemma_isw_bool_unused(*p, a, k, r);
        },
    }
}

/// A formula that uses no element of the array `a` is unchanged by the
/// rule of the assignment `a[k] = r`.
pub proof fn law_index_swap_unused(b: SBool, a: Seq<char>, k: SValue, r: SValue)
    requires
        no_element_of(vars_bool(b), a),
    ensures
        isw_bool(b, a, k, r) == b,
{
    lemma_isw_bool_unused(b, a, k, r);
}

/// Whether a quantifier in `v` binds a variable that uses `x`.
pub open spec fn binds_value(v: SValue, x: SVariable) -> bool
    decreases v,
{
    match v {
        SValue::Variable(w) => binds_var(w, x),
        SValue::Expr(e) => binds_expr(e, x),
        SValue::Bool(b) => binds_bool(b, x),
        SValue::Tuple(vs) => exists|i: int| 0 <= i < vs.len() && binds_value(#[trigger] vs[i], x),
        SValue::Array(vs) => exists|i: int| 0 <= i < vs.len() && binds_value(#[trigger] vs[i], x),
        SValue::FunctionCall(_, vs) => exists|i: int| 0 <= i < vs.len() && binds_value(#[trigger] vs[i], x),
        SValue::Dereference(a) => binds_value(*a, x),
        SValue::Reference(a) => binds_value(*a, x),
        SValue::ReferenceMutable(a) => binds_value(*a, x),
        SValue::Unit => false,
        SValue::Unknown => false,
        SValue::Ternary(c, a, b) => binds_bool(*c, x) || binds_value(*a, x) || binds_value(*b, x),
    }
}

pub open spec fn binds_var(w: SVariable, x: SVariable) -> bool
    decreases w,
{
    match w {
        SVariable::ArrayElem(_, i) => binds_value(*i, x),
        SVariable::TupleElem(_, i) => binds_value(*i, x),
        _ => false,
    }
}

pub open spec fn binds_expr(e: SExpr, x: SVariable) -> bool
    decreases e,
{
    match e {
        SExpr::Number(_) => false,
        SExpr::Value(v) => binds_value(*v, x),
        SExpr::Op(a, _, b) => binds_expr(*a, x) || binds_expr(*b, x),
    }
}

pub open spec fn binds_bool(b: SBool, x: SVariable) -> bool
    decreases b,
{
    match b {
        SBool::And(p, q) => binds_bool(*p, x) || binds_bool(*q, x),
        SBool::Or(p, q) => binds_bool(*p, x) || binds_bool(*q, x),
        SBool::Not(p) => binds_bool(*p, x),
        SBool::Value(v) => binds_value(*v, x),
        SBool::True => false,
        SBool::False => false,
        SBool::Equal(p, q) => binds_expr(p, x) || binds_expr(q, x),
        SBool::GreaterEqual(p, q) => binds_expr(p, x) || binds_expr(q, x),
        SBool::LowerEqual(p, q) => binds_expr(p, x) || binds_expr(q, x),
        SBool::GreaterThan(p, q) => binds_expr(p, x) || binds_expr(q, x),
        SBool::LowerThan(p, q) => binds_expr(p, x) || binds_expr(q, x),
        SBool::ForAll(u, p) => vars_var(u).contains(x) || binds_bool(*p, x),
        SBool::Exists(u, p) => vars_var(u).contains(x) || binds_bool(*p, x),
    }
}

proof fn lemma_values_lack(t: Seq<SValue>, x: SVariable)
    requires
        forall|i: int| 0 <= i < t.len() ==> !(#[trigger] vars_value(t[i])).contains(x),
    ensures
        !vars_values(t).contains(x),
    decreases t.len(),
{
    if t.len() > 0 {
        lemma_values_lack(t.drop_last(), x);
        assert(vars_value(t[t.len() - 1]) == vars_value(t.last()));
    }
}

proof fn lemma_chain_lacks(name: Seq<char>, elems: Seq<SValue>, k: nat, idx: SValue, x: SVariable)
    requires
        x is Named,
        !vars_values(elems).contains(x),
        !vars_value(idx).contains(x),
    ensures
        !vars_value(array_chain(name, elems, k, idx)).contains(x),
    decreases elems.len() - k,
{
    if !(k >= elems.len() || k > i32::MAX) {
        lemma_values_have(elems, k as int);
        lemma_chain_lacks(name, elems, k + 1, idx, x);
        let c = SBool::Equal(SExpr::Value(Box::new(idx)), SExpr::Number(k as i32));
        assert(vars_expr(SExpr::Value(Box::new(idx))) == vars_value(idx));
        assert(vars_expr(SExpr::Number(k as i32)) == Set::<SVariable>::empty());
        assert(!vars_bool(c).contains(x));
    } else {
        let w = SVariable::ArrayElem(name, Box::new(idx));
        assert(vars_var(w) == set![w] + vars_value(idx));
        assert(w != x);
    }
}

proof fn lemma_sw_values_gone(s: Seq<SValue>, v: SValue, x: SVariable, r: SValue)
    requires
        x is Named,
        !vars_value(r).contains(x),
        forall|i: int| 0 <= i < s.len() ==> !binds_value(#[trigger] s[i], x),
        forall|i: int| 0 <= i < s.len() ==> decreases_to!(v => #[trigger] s[i]),
    ensures
        forall|i: int| 0 <= i < s.len() ==> !vars_value(#[trigger] sw_value(s[i], x, r)).contains(x),
    decreases v, 0int,
{
    assert forall|i: int| 0 <= i < s.len() implies !vars_value(#[trigger] sw_value(s[i], x, r)).contains(x) by {
        assert(binds_value(s[i], x) == false);
        lemma_sw_value_gone(s[i], x, r);
    }
}

proof fn lemma_sw_value_gone(v: SValue, x: SVariable, r: SValue)
    requires
        x is Named,
        !vars_value(r).contains(x),
        !binds_value(v, x),
    ensures
        !vars_value(sw_value(v, x, r)).contains(x),
    decreases v, 1int,
{
    match v {
        SValue::Variable(w) => {
            if w != x {
                lemma_sw_elem_gone(w, x, r);
                assert(sw_value(v, x, r) == sw_elem(w, x, r));
            } else {
                assert(sw_value(v, x, r) == r);
            }
        },
        SValue::Expr(e) => lemma_sw_expr_gone(e, x, r),
        SValue::Bool(b) => lemma_sw_bool_gone(b, x, r),
        SValue::Tuple(s) => {
            lemma_sw_values_gone(s, v, x, r);
            let t = sw_value(v, x, r)->Tuple_0;
            assert forall|i: int| 0 <= i < t.len() implies !(#[trigger] vars_value(t[i])).contains(x) by {
                assert(t[i] == sw_value(s[i], x, r));
            }
            lemma_values_lack(t, x);
        },
        SValue::Array(s) => {
            lemma_sw_values_gone(s, v, x, r);
            let t = sw_value(v, x, r)->Array_0;
            assert forall|i: int| 0 <= i < t.len() implies !(#[trigger] vars_value(t[i])).contains(x) by {
                assert(t[i] == sw_value(s[i], x, r));
            }
            lemma_values_lack(t, x);
        },
        SValue::FunctionCall(_, s) => {
            lemma_sw_values_gone(s, v, x, r);
            let t = sw_value(v, x, r)->FunctionCall_1;
            assert forall|i: int| 0 <= i < t.len() implies !(#[trigger] vars_value(t[i])).contains(x) by {
                assert(t[i] == sw_value(s[i], x, r));
            }
            lemma_values_lack(t, x);
        },
        SValue::Dereference(a) => lemma_sw_value_gone(*a, x, r),
        SValue::Reference(a) => lemma_sw_value_gone(*a, x, r),
        SValue::ReferenceMutable(a) => lemma_sw_value_gone(*a, x, r),
        SValue::Unit => {},
        SValue::Unknown => {},
        SValue::Ternary(c, a, b) => {
            lemma_sw_bool_gone(*c, x, r);
            lemma_sw_value_gone(*a, x, r);
            lemma_sw_value_gone(*b, x, r);
        },
    }
}

proof fn lemma_sw_elem_gone(w: SVariable, x: SVariable, r: SValue)
    requires
        x is Named,
        w != x,
        !vars_value(r).contains(x),
        !binds_var(w, x),
    ensures
        !vars_value(sw_elem(w, x, r)).contains(x),
    decreases w, 1int,
{
    match w {
        SVariable::ArrayElem(n, i) => {
            lemma_sw_value_gone(*i, x, r);
            let i2 = sw_value(*i, x, r);
            if x == SVariable::Named(n) && r is Array {
                assert(vars_value(r) == vars_values(r->Array_0));
                lemma_chain_lacks(n, r->Array_0, 0, i2, x);
                assert(sw_elem(w, x, r) == array_chain(n, r->Array_0, 0, i2));
            } else {
                let w2 = SVariable::ArrayElem(n, Box::new(i2));
                assert(vars_var(w2) == set![w2] + vars_value(i2));
                assert(sw_elem(w, x, r) == SValue::Variable(w2));
                assert(vars_value(SValue::Variable(w2)) == vars_var(w2));
                assert(!set![w2].contains(x));
            }
        },
        SVariable::TupleElem(n, i) => {
            lemma_sw_value_gone(*i, x, r);
            let i2 = sw_value(*i, x, r);
            let w2 = SVariable::TupleElem(n, Box::new(i2));
            assert(vars_var(w2) == set![w2] + vars_value(i2));
            assert(sw_elem(w, x, r) == SValue::Variable(w2));
            assert(vars_value(SValue::Variable(w2)) == vars_var(w2));
            assert(!set![w2].contains(x));
        },
        SVariable::Named(_) => {
            assert(vars_var(w) == set![w]);
            assert(sw_elem(w, x, r) == SValue::Variable(w));
            assert(vars_value(SValue::Variable(w)) == vars_var(w));
        },
        SVariable::Empty => {
            assert(sw_elem(w, x, r) == SValue::Variable(w));
            assert(vars_value(SValue::Variable(w)) == vars_var(w));
        },
    }
}

proof fn lemma_sw_expr_gone(e: SExpr, x: SVariable, r: SValue)
    requires
        x is Named,
        !vars_value(r).contains(x),
        !binds_expr(e, x),
    ensures
        !vars_expr(sw_expr(e, x, r)).contains(x),
    decreases e, 1int,
{
    match e {
        SExpr::Number(_) => {},
        SExpr::Value(v) => lemma_sw_value_gone(*v, x, r),
        SExpr::Op(a, _, b) => {
            lemma_sw_expr_gone(*a, x, r);
            lemma_sw_expr_gone(*b, x, r);
        },
    }
}

proof fn lemma_sw_bool_gone(b: SBool, x: SVariable, r: SValue)
    requires
        x is Named,
        !vars_value(r).contains(x),
        !binds_bool(b, x),
    ensures
        !vars_bool(sw_bool(b, x, r)).contains(x),
    decreases b, 1int,
{
    match b {
        SBool::And(p, q) => {
            lemma_sw_bool_gone(*p, x, r);
            lemma_sw_bool_gone(*q, x, r);
        },
        SBool::Or(p, q) => {
            lemma_sw_bool_gone(*p, x, r);
            lemma_sw_bool_gone(*q, x, r);
        },
        SBool::Not(p) => lemma_sw_bool_gone(*p, x, r),
        SBool::Value(v) => lemma_sw_value_gone(*v, x, r),
        SBool::True => {},
        SBool::False => {},
        SBool::Equal(p, q) => {
            lemma_sw_expr_gone(p, x, r);
            lemma_sw_expr_gone(q, x, r);
        },
        SBool::GreaterEqual(p, q) => {
            lemma_sw_expr_gone(p, x, r);
            lemma_sw_expr_gone(q, x, r);
        },
        SBool::LowerEqual(p, q) => {
            lemma_sw_expr_gone(p, x, r);
            lemma_sw_expr_gone(q, x, r);
        },
        SBool::GreaterThan(p, q) => {
            lemma_sw_expr_gone(p, x, r);
            lemma_sw_expr_gone(q, x, r);
        },
        SBool::LowerThan(p, q) => {
            lemma_sw_expr_gone(p, x, r);
            lemma_sw_expr_gone(q, x, r);
        },
        SBool::ForAll(u, p) => {
            assert(vars_var(u).contains(u) || u is Empty);
            lemma_sw_bool_gone(*p, x, r);
        },
        SBool::Exists(u, p) => {
            assert(vars_var(u).contains(u) || u is Empty);
            lemma_sw_bool_gone(*p, x, r);
        },
    }
}

/// After substituting for a named variable a value that does not use it,
/// the variable is gone from the formula (where no quantifier of the
/// formula binds it: a bound variable is not substituted).
pub proof fn law_swap_removes(b: SBool, x: SVariable, r: SValue)
    requires
        x is Named,
        !vars_value(r).contains(x),
        !binds_bool(b, x),
    ensures
        !vars_bool(sw_bool(b, x, r)).contains(x),
{
    lemma_sw_bool_gone(b, x, r);
}

// ------------------------------------------------------------------
// Implementation
// ------------------------------------------------------------------
fn array_chain_exec(name: &String, elems: &Vec<Value>, idx: &Value) -> (res: Value)
    ensures
        res@ == array_chain(name@, m_elems(elems@), 0, idx@),
{
    let n = elems.len();
    let lim: usize = if n > 2147483647usize { 2147483648usize } else { n };
    let ghost es = m_elems(elems@);
    let elem = Variable::ArrayElem(copy_string(name), Box::new(copy_value(idx)));
    assert(elem@ == SVariable::ArrayElem(name@, Box::new(idx@)));
    let base = Value::Variable(elem);
    assert(es.len() == n);
    let mut acc = base;
    let mut k: usize = lim;
    while k > 0
        invariant
            k <= lim,
            lim <= n,
            n == elems.len(),
            lim == n || lim == 2147483648usize,
            lim <= 2147483648usize,
            n > 2147483647usize ==> lim == 2147483648usize,
            es == m_elems(elems@),
            es.len() == n,
            acc@ == array_chain(name@, es, k as nat, idx@),
        decreases k,
    {
        k = k - 1;
        let ki: i32 = k as i32;
        let lhs = Expr::Value(Box::new(copy_value(idx)));
        assert(lhs@ == SExpr::Value(Box::new(idx@)));
        let rn = Expr::Number(ki);
        assert(rn@ == SExpr::Number(ki));
        let c = Bool::Equal(lhs, rn);
        assert(c@ == SBool::Equal(SExpr::Value(Box::new(idx@)), SExpr::Number(ki)));
        assert((k as nat) as i32 == ki);
        let e = copy_value(&elems[k]);
        proof {
            assert(es[k as int] == e@);
        }
        acc = Value::Ternary(Box::new(c), Box::new(e), Box::new(acc));
    }
    acc
}

fn swap_values(vs: &Vec<Value>, x: &Variable, r: &Value) -> (res: Vec<Value>)
    ensures
        res@.len() == vs@.len(),
        forall|i: int| 0 <= i < vs@.len() ==> #[trigger] m_value(res@[i]) == sw_value(m_value(vs@[i]), x@, r@),
    decreases vs,
{
    let mut res: Vec<Value> = Vec::new();
    let mut i: usize = 0;
    while i < vs.len()
        invariant
            i <= vs.len(),
            res@.len() == i,
            forall|j: int| 0 <= j < i ==> #[trigger] m_value(res@[j]) == sw_value(m_value(vs@[j]), x@, r@),
        decreases vs.len() - i,
    {
        assert(decreases_to!(vs => vs@[i as int]));
        res.push(swap_value(&vs[i], x, r));
        i = i + 1;
    }
    res
}

/// `v` with `x` replaced by `r`.
pub fn swap_value(v: &Value, x: &Variable, r: &Value) -> (res: Value)
    ensures
        res@ == sw_value(v@, x@, r@),
    decreases v,
{
    match v {
        Value::Variable(w) => {
            if eq_var(w, x) {
                copy_value(r)
            } else {
                swap_elem(w, x, r)
            }
        },
        Value::Expr(e) => Value::Expr(swap_expr(e, x, r)),
        Value::Bool(b) => Value::Bool(swap_bool(b, x, r)),
        Value::Tuple(vs) => {
            let res = Value::Tuple(swap_values(vs, x, r));
            proof {
                let s1 = res@->Tuple_0;
                let s2 = sw_value(v@, x@, r@)->Tuple_0;
                assert(s1.len() == s2.len());
                assert forall|i: int| 0 <= i < s1.len() implies s1[i] == s2[i] by {
                    assert(s1[i] == m_value(res->Tuple_0@[i]));
                }
                assert(s1 =~= s2);
            }
            res
        },
        Value::Array(vs) => {
            let res = Value::Array(swap_values(vs, x, r));
            proof {
                let s1 = res@->Array_0;
                let s2 = sw_value(v@, x@, r@)->Array_0;
                assert(s1.len() == s2.len());
                assert forall|i: int| 0 <= i < s1.len() implies s1[i] == s2[i] by {
                    assert(s1[i] == m_value(res->Array_0@[i]));
                }
                assert(s1 =~= s2);
            }
            res
        },
        Value::FunctionCall(n, vs) => {
            let res = Value::FunctionCall(copy_string(n), swap_values(vs, x, r));
            proof {
                let s1 = res@->FunctionCall_1;
                let s2 = sw_value(v@, x@, r@)->FunctionCall_1;
                assert(s1.len() == s2.len());
                assert forall|i: int| 0 <= i < s1.len() implies s1[i] == s2[i] by {
                    assert(s1[i] == m_value(res->FunctionCall_1@[i]));
                }
                assert(s1 =~= s2);
            }
            res
        },
        Value::Dereference(a) => Value::Dereference(Box::new(swap_value(a, x, r))),
        Value::Reference(a) => Value::Reference(Box::new(swap_value(a, x, r))),
        Value::ReferenceMutable(a) => Value::ReferenceMutable(Box::new(swap_value(a, x, r))),
        Value::Unit => Value::Unit,
        Value::Unknown => Value::Unknown,
        Value::Ternary(c, a, b) => Value::Ternary(
            Box::new(swap_bool(c, x, r)),
            Box::new(swap_value(a, x, r)),
            Box::new(swap_value(b, x, r)),
        ),
    }
}

fn swap_elem(w: &Variable, x: &Variable, r: &Value) -> (res: Value)
    ensures
        res@ == sw_elem(w@, x@, r@),
    decreases w,
{
    match w {
        Variable::ArrayElem(n, i) => {
            let i2 = swap_value(i, x, r);
            let named = match x {
                Variable::Named(xn) => eq_string(xn, n),
                _ => false,
            };
            match r {
                Value::Array(es) => {
                    if named {
                        proof {
                            assert(m_elems(es@) =~= r@->Array_0);
                        }
                        array_chain_exec(n, es, &i2)
                    } else {
                        let el = Variable::ArrayElem(copy_string(n), Box::new(i2));
                        assert(el@ == SVariable::ArrayElem(n@, Box::new(i2@)));
                        Value::Variable(el)
                    }
                },
                _ => {
                    let el = Variable::ArrayElem(copy_string(n), Box::new(i2));
                    assert(el@ == SVariable::ArrayElem(n@, Box::new(i2@)));
                    Value::Variable(el)
                },
            }
        },
        Variable::TupleElem(n, i) => {
            let i2 = swap_value(i, x, r);
            let el = Variable::TupleElem(copy_string(n), Box::new(i2));
            assert(el@ == SVariable::TupleElem(n@, Box::new(i2@)));
            Value::Variable(el)
        },
        _ => Value::Variable(copy_var(w)),
    }
}

/// `e` with `x` replaced by `r`.
pub fn swap_expr(e: &Expr, x: &Variable, r: &Value) -> (res: Expr)
    ensures
        res@ == sw_expr(e@, x@, r@),
    decreases e,
{
    match e {
        Expr::Number(n) => Expr::Number(*n),
        Expr::Value(v) => Expr::Value(Box::new(swap_value(v, x, r))),
        Expr::Op(a, o, b) => Expr::Op(Box::new(swap_expr(a, x, r)), *o, Box::new(swap_expr(b, x, r))),
    }
}

/// `b` with `x` replaced by `r`, where no quantifier binds `x`.
pub fn swap_bool(b: &Bool, x: &Variable, r: &Value) -> (res: Bool)
    ensures
        res@ == sw_bool(b@, x@, r@),
    decreases b,
{
    match b {
        Bool::And(p, q) => Bool::And(Box::new(swap_bool(p, x, r)), Box::new(swap_bool(q, x, r))),
        Bool::Or(p, q) => Bool::Or(Box::new(swap_bool(p, x, r)), Box::new(swap_bool(q, x, r))),
        Bool::Not(p) => Bool::Not(Box::new(swap_bool(p, x, r))),
        Bool::Value(v) => Bool::Value(Box::new(swap_value(v, x, r))),
        Bool::True => Bool::True,
        Bool::False => Bool::False,
        Bool::Equal(p, q) => Bool::Equal(swap_expr(p, x, r), swap_expr(q, x, r)),
        Bool::GreaterEqual(p, q) => Bool::GreaterEqual(swap_expr(p, x, r), swap_expr(q, x, r)),
        Bool::LowerEqual(p, q) => Bool::LowerEqual(swap_expr(p, x, r), swap_expr(q, x, r)),
        Bool::GreaterThan(p, q) => Bool::GreaterThan(swap_expr(p, x, r), swap_expr(q, x, r)),
        Bool::LowerThan(p, q) => Bool::LowerThan(swap_expr(p, x, r), swap_expr(q, x, r)),
        Bool::ForAll(u, p) => {
            if eq_var(u, x) {
                copy_bool(b)
            } else {
                Bool::ForAll(copy_var(u), Box::new(swap_bool(p, x, r)))
            }
        },
        Bool::Exists(u, p) => {
            if eq_var(u, x) {
                copy_bool(b)
            } else {
                Bool::Exists(copy_var(u), Box::new(swap_bool(p, x, r)))
            }
        },
    }
}

fn index_swap_values(vs: &Vec<Value>, a: &String, k: &Value, r: &Value) -> (res: Vec<Value>)
    ensures
        res@.len() == vs@.len(),
        forall|i: int| 0 <= i < vs@.len() ==> #[trigger] m_value(res@[i]) == isw_value(m_value(vs@[i]), a@, k@, r@),
    decreases vs,
{
    let mut res: Vec<Value> = Vec::new();
    let mut i: usize = 0;
    while i < vs.len()
        invariant
            i <= vs.len(),
            res@.len() == i,
            forall|j: int| 0 <= j < i ==> #[trigger] m_value(res@[j]) == isw_value(m_value(vs@[j]), a@, k@, r@),
        decreases vs.len() - i,
    {
        assert(decreases_to!(vs => vs@[i as int]));
        res.push(index_swap_value(&vs[i], a, k, r));
        i = i + 1;
    }
    res
}

/// `v` after the assignment `a[k] = r`.
pub fn index_swap_value(v: &Value, a: &String, k: &Value, r: &Value) -> (res: Value)
    ensures
        res@ == isw_value(v@, a@, k@, r@),
    decreases v,
{
    match v {
        Value::Variable(w) => index_swap_elem(w, a, k, r),
        Value::Expr(e) => Value::Expr(index_swap_expr(e, a, k, r)),
        Value::Bool(b) => Value::Bool(index_swap_bool(b, a, k, r)),
        Value::Tuple(vs) => {
            let res = Value::Tuple(index_swap_values(vs, a, k, r));
            proof {
                let s1 = res@->Tuple_0;
                let s2 = isw_value(v@, a@, k@, r@)->Tuple_0;
                assert(s1.len() == s2.len());
                assert forall|i: int| 0 <= i < s1.len() implies s1[i] == s2[i] by {
                    assert(s1[i] == m_value(res->Tuple_0@[i]));
                }
                assert(s1 =~= s2);
            }
            res
        },
        Value::Array(vs) => {
            let res = Value::Array(index_swap_values(vs, a, k, r));
            proof {
                let s1 = res@->Array_0;
                let s2 = isw_value(v@, a@, k@, r@)->Array_0;
                assert(s1.len() == s2.len());
                assert forall|i: int| 0 <= i < s1.len() implies s1[i] == s2[i] by {
                    assert(s1[i] == m_value(res->Array_0@[i]));
                }
                assert(s1 =~= s2);
            }
            res
        },
        Value::FunctionCall(n, vs) => {
            let res = Value::FunctionCall(copy_string(n), index_swap_values(vs, a, k, r));
            proof {
                let s1 = res@->FunctionCall_1;
                let s2 = isw_value(v@, a@, k@, r@)->FunctionCall_1;
                assert(s1.len() == s2.len());
                assert forall|i: int| 0 <= i < s1.len() implies s1[i] == s2[i] by {
                    assert(s1[i] == m_value(res->FunctionCall_1@[i]));
                }
                assert(s1 =~= s2);
            }
            res
        },
        Value::Dereference(p) => Value::Dereference(Box::new(index_swap_value(p, a, k, r))),
        Value::Reference(p) => Value::Reference(Box::new(index_swap_value(p, a, k, r))),
        Value::ReferenceMutable(p) => Value::ReferenceMutable(Box::new(index_swap_value(p, a, k, r))),
        Value::Unit => Value::Unit,
        Value::Unknown => Value::Unknown,
        Value::Ternary(c, p, q) => Value::Ternary(
            Box::new(index_swap_bool(c, a, k, r)),
            Box::new(index_swap_value(p, a, k, r)),
            Box::new(index_swap_value(q, a, k, r)),
        ),
    }
}

fn index_swap_elem(w: &Variable, a: &String, k: &Value, r: &Value) -> (res: Value)
    ensures
        res@ == isw_elem(w@, a@, k@, r@),
    decreases w,
{
    match w {
        Variable::ArrayElem(n, i) => {
            let i2 = index_swap_value(i, a, k, r);
            let lhs = Expr::Value(Box::new(copy_value(&i2)));
            assert(lhs@ == SExpr::Value(Box::new(i2@)));
            let rhs = Expr::Value(Box::new(copy_value(k)));
            assert(rhs@ == SExpr::Value(Box::new(k@)));
            let c = Bool::Equal(lhs, rhs);
            assert(c@ == SBool::Equal(SExpr::Value(Box::new(i2@)), SExpr::Value(Box::new(k@))));
            let el = Variable::ArrayElem(copy_string(n), Box::new(i2));
            assert(el@ == SVariable::ArrayElem(n@, Box::new(i2@)));
            let old_elem = Value::Variable(el);
            assert(old_elem@ == SValue::Variable(SVariable::ArrayElem(n@, Box::new(i2@))));
            if eq_string(n, a) {
                let rv = copy_value(r);
                let res = Value::Ternary(Box::new(c), Box::new(rv), Box::new(old_elem));
                assert(res@ == SValue::Ternary(Box::new(c@), Box::new(r@), Box::new(old_elem@)));
                res
            } else {
                old_elem
            }
        },
        Variable::TupleElem(n, i) => {
            let i2 = index_swap_value(i, a, k, r);
            let el = Variable::TupleElem(copy_string(n), Box::new(i2));
            assert(el@ == SVariable::TupleElem(n@, Box::new(i2@)));
            Value::Variable(el)
        },
        _ => Value::Variable(copy_var(w)),
    }
}

/// `e` after the assignment `a[k] = r`.
pub fn index_swap_expr(e: &Expr, a: &String, k: &Value, r: &Value) -> (res: Expr)
    ensures
        res@ == isw_expr(e@, a@, k@, r@),
    decreases e,
{
    match e {
        Expr::Number(n) => Expr::Number(*n),
        Expr::Value(v) => Expr::Value(Box::new(index_swap_value(v, a, k, r))),
        Expr::Op(p, o, q) => Expr::Op(
            Box::new(index_swap_expr(p, a, k, r)),
            *o,
            Box::new(index_swap_expr(q, a, k, r)),
        ),
    }
}

/// `b` after the assignment `a[k] = r`.
pub fn index_swap_bool(b: &Bool, a: &String, k: &Value, r: &Value) -> (res: Bool)
    ensures
        res@ == isw_bool(b@, a@, k@, r@),
    decreases b,
{
    match b {
        Bool::And(p, q) => Bool::And(Box::new(index_swap_bool(p, a, k, r)), Box::new(index_swap_bool(q, a, k, r))),
        Bool::Or(p, q) => Bool::Or(Box::new(index_swap_bool(p, a, k, r)), Box::new(index_swap_bool(q, a, k, r))),
        Bool::Not(p) => Bool::Not(Box::new(index_swap_bool(p, a, k, r))),
        Bool::Value(v) => Bool::Value(Box::new(index_swap_value(v, a, k, r))),
        Bool::True => Bool::True,
        Bool::False => Bool::False,
        Bool::Equal(p, q) => Bool::Equal(index_swap_expr(p, a, k, r), index_swap_expr(q, a, k, r)),
        Bool::GreaterEqual(p, q) => Bool::GreaterEqual(index_swap_expr(p, a, k, r), index_swap_expr(q, a, k, r)),
        Bool::LowerEqual(p, q) => Bool::LowerEqual(index_swap_expr(p, a, k, r), index_swap_expr(q, a, k, r)),
        Bool::GreaterThan(p, q) => Bool::GreaterThan(index_swap_expr(p, a, k, r), index_swap_expr(q, a, k, r)),
        Bool::LowerThan(p, q) => Bool::LowerThan(index_swap_expr(p, a, k, r), index_swap_expr(q, a, k, r)),
        Bool::ForAll(u, p) => {
            let hides = match u {
                Variable::Named(un) => eq_string(un, a),
                _ => false,
            };
            assert(hides == (u@ == SVariable::Named(a@)));
            if hides {
                copy_bool(b)
            } else {
                Bool::ForAll(copy_var(u), Box::new(index_swap_bool(p, a, k, r)))
            }
        },
        Bool::Exists(u, p) => {
            let hides = match u {
                Variable::Named(un) => eq_string(un, a),
                _ => false,
            };
            assert(hides == (u@ == SVariable::Named(a@)));
            if hides {
                copy_bool(b)
            } else {
                Bool::Exists(copy_var(u), Box::new(index_swap_bool(p, a, k, r)))
            }
        },
    }
}

/// Substitution in formulas and values.
pub trait Swapper: Sized + View {
    /// What `swap` gives, on the models.
    spec fn swapped(self, var: SVariable, val: SValue) -> Self::V;

    /// What `index_swap` gives, on the models.
    spec fn index_swapped(self, array: Seq<char>, index: SValue, val: SValue) -> Self::V;

    /// Swap all the occurrences of `var` with `val`.
    fn swap(self, var: Variable, val: Value) -> (r: Self)
        ensures
            r@ == self.swapped(var@, val@),
    ;

    /// The formula before the assignment `array[index] = val`.
    fn index_swap(self, array: String, index: Value, val: Value) -> (r: Self)
        ensures
            r@ == self.index_swapped(array@, index@, val@),
    ;
}

impl Swapper for Bool {
    open spec fn swapped(self, var: SVariable, val: SValue) -> SBool {
        sw_bool(self@, var, val)
    }

    open spec fn index_swapped(self, array: Seq<char>, index: SValue, val: SValue) -> SBool {
        isw_bool(self@, array, index, val)
    }

    fn swap(self, var: Variable, val: Value) -> (r: Bool) {
        swap_bool(&self, &var, &val)
    }

    fn index_swap(self, array: String, index: Value, val: Value) -> (r: Bool) {
        index_swap_bool(&self, &array, &index, &val)
    }
}

impl Swapper for Value {
    open spec fn swapped(self, var: SVariable, val: SValue) -> SValue {
        sw_value(self@, var, val)
    }

    open spec fn index_swapped(self, array: Seq<char>, index: SValue, val: SValue) -> SValue {
        isw_value(self@, array, index, val)
    }

    fn swap(self, var: Variable, val: Value) -> (r: Value) {
        swap_value(&self, &var, &val)
    }

    fn index_swap(self, array: String, index: Value, val: Value) -> (r: Value) {
        index_swap_value(&self, &array, &index, &val)
    }
}

impl Swapper for Expr {
    open spec fn swapped(self, var: SVariable, val: SValue) -> SExpr {
        sw_expr(self@, var, val)
    }

    open spec fn index_swapped(self, array: Seq<char>, index: SValue, val: SValue) -> SExpr {
        isw_expr(self@, array, index, val)
    }

    fn swap(self, var: Variable, val: Value) -> (r: Expr) {
        swap_expr(&self, &var, &val)
    }

    fn index_swap(self, array: String, index: Value, val: Value) -> (r: Expr) {
        index_swap_expr(&self, &array, &index, &val)
    }
}

} // verus!
