//! Formulas handed to the Z3 solver: their translation into Z3 terms, and
//! the check that an obligation `premise ==> goal` is valid.
use vstd::prelude::*;
use crate::ast::{Bool, Expr, Opcode, SBool, SExpr, SValue, SVariable, Value, Variable};
use crate::prover::{Obligation, SObligation};
use crate::smt::{
    BoolTerm, IntTerm, Verdict, ZBool, ZInt, array_const, bool_and, bool_const, bool_implies,
    bool_lit, bool_not, bool_or, exists_int, forall_int, int_add, int_const, int_div, int_ge,
    int_gt, int_le, int_lit, int_lt, int_mul, int_rem, int_sort, int_sub, ite_bool, ite_int,
    name_ok, new_config, new_context, new_solver, satisfiable, satisfied_by, select_int, set_timeout,
    solver_assert, solver_check, verdict_proves, Valuation, bool_value, div_value, int_value,
    rem_value, with_int, an_int,
};

verus! {

// ------------------------------------------------------------------
// Specification: the formulas that can be handed to the solver
// ------------------------------------------------------------------
/// A variable read as an integer: a name, or an element of an integer array.
pub open spec fn var_int_ok(x: SVariable) -> bool
    decreases x,
{
    match x {
        SVariable::Named(n) => name_ok(n),
        SVariable::ArrayElem(n, i) => name_ok(n) && value_int_ok(*i),
        _ => false,
    }
}

/// A value read as an integer.  A boolean value is read as one only where
/// it is a bare variable.
pub open spec fn value_int_ok(v: SValue) -> bool
    decreases v,
{
    match v {
        SValue::Expr(e) => int_ok(e),
        SValue::Bool(b) => match b {
            SBool::Value(x) => match *x {
                SValue::Variable(y) => var_int_ok(y),
                _ => false,
            },
            _ => false,
        },
        SValue::Variable(y) => var_int_ok(y),
        SValue::Ternary(c, a, b) => bool_ok(*c) && value_int_ok(*a) && value_int_ok(*b),
        _ => false,
    }
}

pub open spec fn int_ok(e: SExpr) -> bool
    decreases e,
{
    match e {
        SExpr::Number(_) => true,
        SExpr::Value(v) => value_int_ok(*v),
        SExpr::Op(a, _, b) => int_ok(*a) && int_ok(*b),
    }
}

/// A value read as a boolean: a formula, a named variable, or a choice
/// between two of them.
pub open spec fn value_bool_ok(v: SValue) -> bool
    decreases v,
{
    match v {
        SValue::Bool(b) => bool_ok(b),
        SValue::Variable(y) => y matches SVariable::Named(n) && name_ok(n),
        SValue::Ternary(c, a, b) => bool_ok(*c) && value_bool_ok(*a) && value_bool_ok(*b),
        _ => false,
    }
}

/// A formula the solver can take; quantifiers bind a named integer, and
/// names hold no NUL character.
pub open spec fn bool_ok(b: SBool) -> bool
    decreases b,
{
    match b {
        SBool::And(p, q) => bool_ok(*p) && bool_ok(*q),
        SBool::Or(p, q) => bool_ok(*p) && bool_ok(*q),
        SBool::Not(p) => bool_ok(*p),
        SBool::Value(v) => value_bool_ok(*v),
        SBool::True => true,
        SBool::False => true,
        SBool::Equal(x, y) => int_ok(x) && int_ok(y),
        SBool::GreaterEqual(x, y) => int_ok(x) && int_ok(y),
        SBool::LowerEqual(x, y) => int_ok(x) && int_ok(y),
        SBool::GreaterThan(x, y) => int_ok(x) && int_ok(y),
        SBool::LowerThan(x, y) => int_ok(x) && int_ok(y),
        SBool::ForAll(u, p) => u matches SVariable::Named(n) && name_ok(n) && bool_ok(*p),
        SBool::Exists(u, p) => u matches SVariable::Named(n) && name_ok(n) && bool_ok(*p),
    }
}

pub open spec fn obligation_ok(o: SObligation) -> bool {
    bool_ok(o.premise) && bool_ok(o.goal)
}

// ------------------------------------------------------------------
// Specification: the terms asked of the solver
// ------------------------------------------------------------------
pub open spec fn z_var_int(x: SVariable) -> ZInt
    decreases x,
{
    match x {
        SVariable::Named(n) => ZInt::Const(n),
        SVariable::ArrayElem(n, i) => ZInt::Select(n, Box::new(z_value_int(*i))),
        _ => ZInt::Lit(0),
    }
}

pub open spec fn z_value_int(v: SValue) -> ZInt
    decreases v,
{
    match v {
        SValue::Expr(e) => z_int(e),
        SValue::Bool(b) => match b {
            SBool::Value(x) => match *x {
                SValue::Variable(y) => z_var_int(y),
                _ => ZInt::Lit(0),
            },
            _ => ZInt::Lit(0),
        },
        SValue::Variable(y) => z_var_int(y),
        SValue::Ternary(c, a, b) => ZInt::Ite(Box::new(z_bool(*c)), Box::new(z_value_int(*a)), Box::new(z_value_int(*b))),
        _ => ZInt::Lit(0),
    }
}

/// The integer term of an expression.
pub open spec fn z_int(e: SExpr) -> ZInt
    decreases e,
{
    match e {
        SExpr::Number(n) => ZInt::Lit(n as int),
        SExpr::Value(v) => z_value_int(*v),
        SExpr::Op(a, o, b) => match o {
            Opcode::Add => ZInt::Add(Box::new(z_int(*a)), Box::new(z_int(*b))),
            Opcode::Sub => ZInt::Sub(Box::new(z_int(*a)), Box::new(z_int(*b))),
            Opcode::Mul => ZInt::Mul(Box::new(z_int(*a)), Box::new(z_int(*b))),
            Opcode::Div => ZInt::Div(Box::new(z_int(*a)), Box::new(z_int(*b))),
            Opcode::Rem => ZInt::Rem(Box::new(z_int(*a)), Box::new(z_int(*b))),
        },
    }
}

pub open spec fn z_value_bool(v: SValue) -> ZBool
    decreases v,
{
    match v {
        SValue::Bool(b) => z_bool(b),
        SValue::Variable(y) => match y {
            SVariable::Named(n) => ZBool::Const(n),
            _ => ZBool::Lit(false),
        },
        SValue::Ternary(c, a, b) => ZBool::Ite(Box::new(z_bool(*c)), Box::new(z_value_bool(*a)), Box::new(z_value_bool(*b))),
        _ => ZBool::Lit(false),
    }
}

/// The boolean term of a formula; `a == b` is asked as `a >= b && a <= b`.
pub open spec fn z_bool(b: SBool) -> ZBool
    decreases b,
{
    match b {
        SBool::And(p, q) => ZBool::And(Box::new(z_bool(*p)), Box::new(z_bool(*q))),
        SBool::Or(p, q) => ZBool::Or(Box::new(z_bool(*p)), Box::new(z_bool(*q))),
        SBool::Not(p) => ZBool::Not(Box::new(z_bool(*p))),
        SBool::Value(v) => z_value_bool(*v),
        SBool::True => ZBool::Lit(true),
        SBool::False => ZBool::Lit(false),
        SBool::Equal(x, y) => ZBool::And(
            Box::new(ZBool::Ge(Box::new(z_int(x)), Box::new(z_int(y)))),
            Box::new(ZBool::Le(Box::new(z_int(x)), Box::new(z_int(y)))),
        ),
        SBool::GreaterEqual(x, y) => ZBool::Ge(Box::new(z_int(x)), Box::new(z_int(y))),
        SBool::LowerEqual(x, y) => ZBool::Le(Box::new(z_int(x)), Box::new(z_int(y))),
        SBool::GreaterThan(x, y) => ZBool::Gt(Box::new(z_int(x)), Box::new(z_int(y))),
        SBool::LowerThan(x, y) => ZBool::Lt(Box::new(z_int(x)), Box::new(z_int(y))),
        SBool::ForAll(u, p) => match u {
            SVariable::Named(n) => ZBool::Forall(n, Box::new(z_bool(*p))),
            _ => ZBool::Lit(false),
        },
        SBool::Exists(u, p) => match u {
            SVariable::Named(n) => ZBool::Exists(n, Box::new(z_bool(*p))),
            _ => ZBool::Lit(false),
        },
    }
}

/// What is asked of the solver for an obligation: that the negation of
/// `premise ==> goal` has a model.
pub open spec fn negated(o: SObligation) -> ZBool {
    ZBool::Not(Box::new(ZBool::Implies(Box::new(z_bool(o.premise)), Box::new(z_bool(o.goal)))))
}

// ------------------------------------------------------------------
// Specification: what a formula means
// ------------------------------------------------------------------
/// The number a variable stands for: a named integer, or an element of
/// an integer array.
pub open spec fn var_number(v: Valuation, x: SVariable) -> int
    decreases x,
{
    match x {
        SVariable::Named(n) => (v.ints)(n),
        SVariable::ArrayElem(n, i) => (v.arrays)(n, value_number(v, *i)),
        _ => 0,
    }
}

pub open spec fn value_number(v: Valuation, x: SValue) -> int
    decreases x,
{
    match x {
        SValue::Expr(e) => expr_number(v, e),
        SValue::Bool(b) => match b {
            SBool::Value(y) => match *y {
                SValue::Variable(z) => var_number(v, z),
                _ => 0,
            },
            _ => 0,
        },
        SValue::Variable(y) => var_number(v, y),
        SValue::Ternary(c, a, b) => if formula_value(v, *c) {
            value_number(v, *a)
        } else {
            value_number(v, *b)
        },
        _ => 0,
    }
}

/// The number an expression stands for, over the integers; division and
/// remainder are those of the solver's theory.
pub open spec fn expr_number(v: Valuation, e: SExpr) -> int
    decreases e,
{
    match e {
        SExpr::Number(n) => n as int,
        SExpr::Value(x) => value_number(v, *x),
        SExpr::Op(a, o, b) => match o {
            Opcode::Add => expr_number(v, *a) + expr_number(v, *b),
            Opcode::Sub => expr_number(v, *a) - expr_number(v, *b),
            Opcode::Mul => expr_number(v, *a) * expr_number(v, *b),
            Opcode::Div => div_value(v, expr_number(v, *a), expr_number(v, *b)),
            Opcode::Rem => rem_value(v, expr_number(v, *a), expr_number(v, *b)),
        },
    }
}

pub open spec fn value_truth(v: Valuation, x: SValue) -> bool
    decreases x,
{
    match x {
        SValue::Bool(b) => formula_value(v, b),
        SValue::Variable(y) => match y {
            SVariable::Named(n) => (v.bools)(n),
            _ => false,
        },
        SValue::Ternary(c, a, b) => if formula_value(v, *c) {
            value_truth(v, *a)
        } else {
            value_truth(v, *b)
        },
        _ => false,
    }
}

/// Whether a formula is true under a valuation; quantifiers range over
/// the integers.
pub open spec fn formula_value(v: Valuation, b: SBool) -> bool
    decreases b,
{
    match b {
        SBool::And(p, q) => formula_value(v, *p) && formula_value(v, *q),
        SBool::Or(p, q) => formula_value(v, *p) || formula_value(v, *q),
        SBool::Not(p) => !formula_value(v, *p),
        SBool::Value(x) => value_truth(v, *x),
        SBool::True => true,
        SBool::False => false,
        SBool::Equal(x, y) => expr_number(v, x) == expr_number(v, y),
        SBool::GreaterEqual(x, y) => expr_number(v, x) >= expr_number(v, y),
        SBool::LowerEqual(x, y) => expr_number(v, x) <= expr_number(v, y),
        SBool::GreaterThan(x, y) => expr_number(v, x) > expr_number(v, y),
        SBool::LowerThan(x, y) => expr_number(v, x) < expr_number(v, y),
        SBool::ForAll(u, p) => match u {
            SVariable::Named(n) => forall|x: int| #[trigger] an_int(x) ==> formula_value(with_int(v, n, x), *p),
            _ => false,
        },
        SBool::Exists(u, p) => match u {
            SVariable::Named(n) => exists|x: int| #[trigger] an_int(x) && formula_value(with_int(v, n, x), *p),
            _ => false,
        },
    }
}

/// The obligation holds: under every valuation where the premise is true,
/// so is the goal.
pub open spec fn holds(o: SObligation) -> bool {
    forall|v: Valuation| #[trigger] formula_value(v, o.premise) ==> formula_value(v, o.goal)
}

proof fn lemma_var_term(x: SVariable, v: Valuation)
    ensures
        int_value(v, z_var_int(x)) == var_number(v, x),
    decreases x, 0int,
{
    match x {
        SVariable::ArrayElem(n, i) => {
            lemma_value_int_term(*i, v);
        },
        _ => {},
    }
}

proof fn lemma_value_int_term(x: SValue, v: Valuation)
    ensures
        int_value(v, z_value_int(x)) == value_number(v, x),
    decreases x, 0int,
{
    match x {
        SValue::Expr(e) => lemma_int_term(e, v),
        SValue::Bool(b) => match b {
            SBool::Value(y) => match *y {
                SValue::Variable(z) => lemma_var_term(z, v),
                _ => {},
            },
            _ => {},
        },
        SValue::Variable(y) => lemma_var_term(y, v),
        SValue::Ternary(c, a, b) => {
            lemma_bool_term(*c, v);
            lemma_value_int_term(*a, v);
            lemma_value_int_term(*b, v);
        },
        _ => {},
    }
}

proof fn lemma_int_term(e: SExpr, v: Valuation)
    ensures
        int_value(v, z_int(e)) == expr_number(v, e),
    decreases e, 0int,
{
    match e {
        SExpr::Number(_) => {},
        SExpr::Value(x) => lemma_value_int_term(*x, v),
        SExpr::Op(a, _, b) => {
            lemma_int_term(*a, v);
            lemma_int_term(*b, v);
        },
    }
}

proof fn lemma_value_bool_term(x: SValue, v: Valuation)
    ensures
        bool_value(v, z_value_bool(x)) == value_truth(v, x),
    decreases x, 0int,
{
    match x {
        SValue::Bool(b) => lemma_bool_term(b, v),
        SValue::Ternary(c, a, b) => {
            lemma_bool_term(*c, v);
            lemma_value_bool_term(*a, v);
            lemma_value_bool_term(*b, v);
        },
        _ => {},
    }
}

/// The term handed to the solver for a formula is true exactly where the
/// formula is.
pub proof fn lemma_bool_term(b: SBool, v: Valuation)
    ensures
        bool_value(v, z_bool(b)) == formula_value(v, b),
    decreases b, 0int,
{
    match b {
        SBool::And(p, q) => {
            lemma_bool_term(*p, v);
            lemma_bool_term(*q, v);
        },
        SBool::Or(p, q) => {
            lemma_bool_term(*p, v);
            lemma_bool_term(*q, v);
        },
        SBool::Not(p) => lemma_bool_term(*p, v),
        SBool::Value(x) => lemma_value_bool_term(*x, v),
        SBool::Equal(x, y) => {
            lemma_int_term(x, v);
            lemma_int_term(y, v);
            let ge = ZBool::Ge(Box::new(z_int(x)), Box::new(z_int(y)));
            let le = ZBool::Le(Box::new(z_int(x)), Box::new(z_int(y)));
            assert(bool_value(v, ge) == (expr_number(v, x) >= expr_number(v, y)));
            assert(bool_value(v, le) == (expr_number(v, x) <= expr_number(v, y)));
            assert(z_bool(b) == ZBool::And(Box::new(ge), Box::new(le)));
        },
        SBool::GreaterEqual(x, y) => {
            lemma_int_term(x, v);
            lemma_int_term(y, v);
        },
        SBool::LowerEqual(x, y) => {
            lemma_int_term(x, v);
            lemma_int_term(y, v);
        },
        SBool::GreaterThan(x, y) => {
            lemma_int_term(x, v);
            lemma_int_term(y, v);
        },
        SBool::LowerThan(x, y) => {
            lemma_int_term(x, v);
            lemma_int_term(y, v);
        },
        SBool::ForAll(u, p) => match u {
            SVariable::Named(n) => {
                assert(z_bool(b) == ZBool::Forall(n, Box::new(z_bool(*p))));
                assert forall|x: int| #[trigger] an_int(x) implies bool_value(with_int(v, n, x), z_bool(*p))
                    == formula_value(with_int(v, n, x), *p) by {
                    lemma_bool_term(*p, with_int(v, n, x));
                }
            },
            _ => {},
        },
        SBool::Exists(u, p) => match u {
            SVariable::Named(n) => {
                assert(z_bool(b) == ZBool::Exists(n, Box::new(z_bool(*p))));
                assert forall|x: int| #[trigger] an_int(x) implies bool_value(with_int(v, n, x), z_bool(*p))
                    == formula_value(with_int(v, n, x), *p) by {
                    lemma_bool_term(*p, with_int(v, n, x));
                }
            },
            _ => {},
        },
        _ => {},
    }
}

/// Where the negation of an obligation has no model, the obligation holds.
pub proof fn lemma_unsat_holds(o: SObligation)
    requires
        !satisfiable(seq![negated(o)]),
    ensures
        holds(o),
{
    assert forall|v: Valuation| #[trigger] formula_value(v, o.premise) implies formula_value(v, o.goal) by {
        lemma_bool_term(o.premise, v);
        lemma_bool_term(o.goal, v);
        assert(bool_value(v, z_bool(o.premise)));
        if !formula_value(v, o.goal) {
            let imp = ZBool::Implies(Box::new(z_bool(o.premise)), Box::new(z_bool(o.goal)));
            assert(!bool_value(v, imp));
            assert(negated(o) == ZBool::Not(Box::new(imp)));
            assert(bool_value(v, negated(o)));
            assert(satisfied_by(v, seq![negated(o)]));
        }
    }
}

/// The time the solver is given for one obligation, in milliseconds.
pub const SOLVER_TIME_LIMIT_MS: u64 = 10000;

// ------------------------------------------------------------------
// Translation
// ------------------------------------------------------------------
/// Whether the name holds no NUL character.
fn plain_name(n: &String) -> (r: bool)
    ensures
        r == name_ok(n@),
{
    let t = n.as_str();
    let len = t.unicode_len();
    let mut i: usize = 0;
    while i < len
        invariant
            i <= len,
            len == t@.len(),
            t@ == n@,
            forall|k: int| 0 <= k < i ==> t@[k] != '\0',
        decreases len - i,
    {
        if t.get_char(i) == '\0' {
            return false;
        }
        i = i + 1;
    }
    true
}

fn tr_var_int<'c>(ctx: &'c z3::Context, x: &Variable) -> (r: Option<IntTerm<'c>>)
    ensures
        r is Some <==> var_int_ok(x@),
        r matches Some(t) ==> t.model() == z_var_int(x@) && t.ctx() == *ctx,
    decreases x,
{
    match x {
        Variable::Named(n) => {
            if !plain_name(n) {
                return None;
            }
            Some(int_const(ctx, n))
        },
        Variable::ArrayElem(n, i) => {
            if !plain_name(n) {
                return None;
            }
            match tr_value_int(ctx, i) {
                Some(ind) => {
                    let dom = int_sort(ctx);
                    let range = int_sort(ctx);
                    let arr = array_const(ctx, n, &dom, &range);
                    select_int(&arr, &ind)
                },
                None => None,
            }
        },
        _ => None,
    }
}

fn tr_value_int<'c>(ctx: &'c z3::Context, v: &Value) -> (r: Option<IntTerm<'c>>)
    ensures
        r is Some <==> value_int_ok(v@),
        r matches Some(t) ==> t.model() == z_value_int(v@) && t.ctx() == *ctx,
    decreases v,
{
    match v {
        Value::Expr(e) => tr_int(ctx, e),
        Value::Bool(b) => match b {
            Bool::Value(x) => match &**x {
                Value::Variable(y) => {
                    let r = tr_var_int(ctx, y);
                    proof {
                        assert((**x)@ == SValue::Variable(y@));
                        assert(b@ == SBool::Value(Box::new((**x)@)));
                    }
                    r
                },
                _ => {
                    proof {
                        assert(b@ == SBool::Value(Box::new((**x)@)));
                    }
                    None
                },
            },
            _ => None,
        },
        Value::Variable(y) => tr_var_int(ctx, y),
        Value::Ternary(c, a, b) => {
            let tc = tr_bool(ctx, c);
            let ta = tr_value_int(ctx, a);
            let tb = tr_value_int(ctx, b);
            match (tc, ta, tb) {
                (Some(x), Some(y), Some(z)) => Some(ite_int(&x, &y, &z)),
                _ => None,
            }
        },
        _ => None,
    }
}

/// The integer term of an expression: `None` exactly where the expression
/// is not one the solver can take.
pub fn tr_int<'c>(ctx: &'c z3::Context, e: &Expr) -> (r: Option<IntTerm<'c>>)
    ensures
        r is Some <==> int_ok(e@),
        r matches Some(t) ==> t.model() == z_int(e@) && t.ctx() == *ctx,
    decreases e,
{
    match e {
        Expr::Number(n) => Some(int_lit(ctx, *n as i64)),
        Expr::Value(v) => tr_value_int(ctx, v),
        Expr::Op(a, o, b) => {
            let ta = tr_int(ctx, a);
            let tb = tr_int(ctx, b);
            match (ta, tb) {
                (Some(x), Some(y)) => Some(
                    match o {
                        Opcode::Add => int_add(ctx, &x, &y),
                        Opcode::Sub => int_sub(ctx, &x, &y),
                        Opcode::Mul => int_mul(ctx, &x, &y),
                        Opcode::Div => int_div(&x, &y),
                        Opcode::Rem => int_rem(&x, &y),
                    },
                ),
                _ => None,
            }
        },
    }
}

fn tr_value_bool<'c>(ctx: &'c z3::Context, v: &Value) -> (r: Option<BoolTerm<'c>>)
    ensures
        r is Some <==> value_bool_ok(v@),
        r matches Some(t) ==> t.model() == z_value_bool(v@) && t.ctx() == *ctx,
    decreases v,
{
    match v {
        Value::Bool(b) => tr_bool(ctx, b),
        Value::Variable(y) => match y {
            Variable::Named(n) => {
                assert(y@ == SVariable::Named(n@));
                if !plain_name(n) {
                    return None;
                }
                Some(bool_const(ctx, n))
            },
            _ => None,
        },
        Value::Ternary(c, a, b) => {
            let tc = tr_bool(ctx, c);
            let ta = tr_value_bool(ctx, a);
            let tb = tr_value_bool(ctx, b);
            match (tc, ta, tb) {
                (Some(x), Some(y), Some(z)) => Some(ite_bool(&x, &y, &z)),
                _ => None,
            }
        },
        _ => None,
    }
}

/// The boolean term of a formula: `None` exactly where the formula is not
/// one the solver can take.
pub fn tr_bool<'c>(ctx: &'c z3::Context, b: &Bool) -> (r: Option<BoolTerm<'c>>)
    ensures
        r is Some <==> bool_ok(b@),
        r matches Some(t) ==> t.model() == z_bool(b@) && t.ctx() == *ctx,
    decreases b,
{
    match b {
        Bool::And(p, q) => match (tr_bool(ctx, p), tr_bool(ctx, q)) {
            (Some(x), Some(y)) => Some(bool_and(ctx, &x, &y)),
            _ => None,
        },
        Bool::Or(p, q) => match (tr_bool(ctx, p), tr_bool(ctx, q)) {
            (Some(x), Some(y)) => Some(bool_or(ctx, &x, &y)),
            _ => None,
        },
        Bool::Not(p) => match tr_bool(ctx, p) {
            Some(x) => Some(bool_not(&x)),
            None => None,
        },
        Bool::Value(v) => tr_value_bool(ctx, v),
        Bool::True => Some(bool_lit(ctx, true)),
        Bool::False => Some(bool_lit(ctx, false)),
        Bool::Equal(x, y) => match (tr_int(ctx, x), tr_int(ctx, y)) {
            (Some(a), Some(c)) => {
                let ge = int_ge(&a, &c);
                let le = int_le(&a, &c);
                Some(bool_and(ctx, &ge, &le))
            },
            _ => None,
        },
        Bool::GreaterEqual(x, y) => match (tr_int(ctx, x), tr_int(ctx, y)) {
            (Some(a), Some(c)) => Some(int_ge(&a, &c)),
            _ => None,
        },
        Bool::LowerEqual(x, y) => match (tr_int(ctx, x), tr_int(ctx, y)) {
            (Some(a), Some(c)) => Some(int_le(&a, &c)),
            _ => None,
        },
        Bool::GreaterThan(x, y) => match (tr_int(ctx, x), tr_int(ctx, y)) {
            (Some(a), Some(c)) => Some(int_gt(&a, &c)),
            _ => None,
        },
        Bool::LowerThan(x, y) => match (tr_int(ctx, x), tr_int(ctx, y)) {
            (Some(a), Some(c)) => Some(int_lt(&a, &c)),
            _ => None,
        },
        Bool::ForAll(u, p) => match u {
            Variable::Named(n) => {
                assert(u@ == SVariable::Named(n@));
                if !plain_name(n) {
                    return None;
                }
                let var = int_const(ctx, n);
                match tr_bool(ctx, p) {
                    Some(body) => forall_int(ctx, &var, &body),
                    None => None,
                }
            },
            _ => None,
        },
        Bool::Exists(u, p) => match u {
            Variable::Named(n) => {
                assert(u@ == SVariable::Named(n@));
                if !plain_name(n) {
                    return None;
                }
                let var = int_const(ctx, n);
                match tr_bool(ctx, p) {
                    Some(body) => exists_int(ctx, &var, &body),
                    None => None,
                }
            },
            _ => None,
        },
    }
}

/// Asks the solver whether `premise ==> goal` is valid: it is shown where
/// the negation has no model.  A formula that cannot be translated is not
/// shown; nor is one on which the solver gives up.
pub fn check_obligation(o: &Obligation) -> (r: bool)
    ensures
        !obligation_ok(o@) ==> !r,
        r ==> obligation_ok(o@) && holds(o@),
{
    let mut cfg = new_config();
    set_timeout(&mut cfg, SOLVER_TIME_LIMIT_MS);
    let ctx = new_context(&cfg);
    let mut solver = new_solver(&ctx);
    let p = match tr_bool(&ctx, &o.premise) {
        Some(x) => x,
        None => {
            return false;
        },
    };
    let q = match tr_bool(&ctx, &o.goal) {
        Some(x) => x,
        None => {
            return false;
        },
    };
    let imp = bool_implies(&p, &q);
    let neg = bool_not(&imp);
    solver_assert(&mut solver, &neg);
    assert(solver.asserted() =~= seq![negated(o@)]);
    let v = solver_check(&solver);
    let r = verdict_proves(v);
    proof {
        if r {
            lemma_unsat_holds(o@);
        }
    }
    r
}

} // verus!
