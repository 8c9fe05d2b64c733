//! The state of a function as each of its commands is entered: the other
//! functions, the values and variables met so far, and the assumptions.
use vstd::prelude::*;
use crate::ast::{
    Assignment, Binding, Bool, Command, Expr, Function, Program, ProveControl, SBinding, SBool,
    SCommand, SExpr, SFunction, SProgram, SProveControl, SType, SValue, SVariable, Type, Value, Variable, m_cmds,
};
use crate::copying::{copy_bool, copy_cmd, copy_func, copy_type, copy_value, copy_var};
use crate::equality::{eq_func, eq_type, eq_value};

verus! {

/// The state as a command is entered: enough to reproduce the command
/// without the whole program at hand.
#[derive(Debug, PartialEq, Eq, Hash)]
pub struct Frame {
    pub command: Command,
    pub funcs: Vec<Function>,
    pub vals: Vec<Val>,
    pub vars: Vec<Var>,
    /// the assumptions made before, e.g. preconditions
    pub assumes: Vec<Bool>,
}

/// A value met in the code, with the type it is used at.
#[derive(Debug, PartialEq, Eq, Hash)]
pub struct Val {
    pub v: Value,
    pub t: Type,
}

/// A variable that is defined, with its type and value.
#[derive(Debug, PartialEq, Eq, Hash)]
pub struct Var {
    pub n: Variable,
    pub t: Type,
    pub v: Value,
}

pub struct SFrame {
    pub command: SCommand,
    pub funcs: Seq<SFunction>,
    pub vals: Seq<(SValue, SType)>,
    pub vars: Seq<(SVariable, SType, SValue)>,
    pub assumes: Seq<SBool>,
}

impl View for Val {
    type V = (SValue, SType);

    open spec fn view(&self) -> (SValue, SType) {
        (self.v@, self.t@)
    }
}

impl View for Var {
    type V = (SVariable, SType, SValue);

    open spec fn view(&self) -> (SVariable, SType, SValue) {
        (self.n@, self.t@, self.v@)
    }
}

impl View for Frame {
    type V = SFrame;

    open spec fn view(&self) -> SFrame {
        SFrame {
            command: self.command@,
            funcs: self.funcs@.map_values(|f: Function| f@),
            vals: self.vals@.map_values(|x: Val| x@),
            vars: self.vars@.map_values(|x: Var| x@),
            assumes: self.assumes@.map_values(|b: Bool| b@),
        }
    }
}

pub fn copy_val(x: &Val) -> (r: Val)
    ensures
        r@ == x@,
{
    Val { v: copy_value(&x.v), t: copy_type(&x.t) }
}

pub fn copy_var_entry(x: &Var) -> (r: Var)
    ensures
        r@ == x@,
{
    Var { n: copy_var(&x.n), t: copy_type(&x.t), v: copy_value(&x.v) }
}

impl Clone for Val {
    fn clone(&self) -> (r: Self)
        ensures
            r@ == self@,
    {
        copy_val(self)
    }
}

impl Clone for Var {
    fn clone(&self) -> (r: Self)
        ensures
            r@ == self@,
    {
        copy_var_entry(self)
    }
}

impl Clone for Frame {
    fn clone(&self) -> (r: Self)
        ensures
            r@ == self@,
    {
        let funcs = crate::copying::copy_funcs(&self.funcs);
        let vals = copy_vals(&self.vals);
        let vars = copy_var_list(&self.vars);
        let assumes = crate::copying::copy_bools(&self.assumes);
        let r = Frame { command: copy_cmd(&self.command), funcs, vals, vars, assumes };
        proof {
            assert(r@.funcs =~= self@.funcs);
            assert(r@.assumes =~= self@.assumes);
        }
        r
    }
}

pub fn copy_vals(v: &Vec<Val>) -> (r: Vec<Val>)
    ensures
        r@.map_values(|x: Val| x@) == v@.map_values(|x: Val| x@),
{
    let mut r: Vec<Val> = Vec::new();
    let mut i: usize = 0;
    while i < v.len()
        invariant
            i <= v.len(),
            r@.len() == i,
            forall|j: int| 0 <= j < i ==> (#[trigger] r@[j])@ == v@[j]@,
        decreases v.len() - i,
    {
        r.push(copy_val(&v[i]));
        i = i + 1;
    }
    proof {
        assert(r@.map_values(|x: Val| x@) =~= v@.map_values(|x: Val| x@));
    }
    r
}

pub fn copy_var_list(v: &Vec<Var>) -> (r: Vec<Var>)
    ensures
        r@.map_values(|x: Var| x@) == v@.map_values(|x: Var| x@),
{
    let mut r: Vec<Var> = Vec::new();
    let mut i: usize = 0;
    while i < v.len()
        invariant
            i <= v.len(),
            r@.len() == i,
            forall|j: int| 0 <= j < i ==> (#[trigger] r@[j])@ == v@[j]@,
        decreases v.len() - i,
    {
        r.push(copy_var_entry(&v[i]));
        i = i + 1;
    }
    proof {
        assert(r@.map_values(|x: Var| x@) =~= v@.map_values(|x: Var| x@));
    }
    r
}

// ------------------------------------------------------------------
// The values met in a formula, in the order in which they are met.
// ------------------------------------------------------------------
pub open spec fn vals_values(s: Seq<SValue>) -> Seq<(SValue, SType)>
    decreases s,
{
    if s.len() == 0 {
        Seq::empty()
    } else {
        vals_values(s.drop_last()) + vals_val(s.last(), SType::Unknown)
    }
}

/// A value used at type `t`: itself (but for `()` and unknown values),
/// then the values inside it.
pub open spec fn vals_val(z: SValue, t: SType) -> Seq<(SValue, SType)>
    decreases z,
{
    match z {
        SValue::Expr(a) => seq![(z, t)] + vals_expr(a),
        SValue::Bool(a) => seq![(z, t)] + vals_bool(a),
        SValue::Variable(_) => seq![(z, t)],
        SValue::Tuple(s) => seq![(z, t)] + vals_values(s),
        SValue::Array(s) => seq![(z, t)] + vals_values(s),
        SValue::FunctionCall(_, s) => seq![(z, t)] + vals_values(s),
        SValue::Dereference(a) => seq![(z, t)] + vals_val(*a, SType::Unknown),
        SValue::Reference(a) => seq![(z, t)] + vals_val(*a, SType::Unknown),
        SValue::ReferenceMutable(a) => seq![(z, t)] + vals_val(*a, SType::Unknown),
        SValue::Unit => Seq::empty(),
        SValue::Unknown => Seq::empty(),
        SValue::Ternary(c, a, b) => seq![(z, t)] + vals_bool(*c) + vals_val(*a, SType::Unknown) + vals_val(
            *b,
            SType::Unknown,
        ),
    }
}

/// The values of an expression are used as integers.
pub open spec fn vals_expr(z: SExpr) -> Seq<(SValue, SType)>
    decreases z,
{
    match z {
        SExpr::Number(_) => Seq::empty(),
        SExpr::Op(a, _, b) => vals_expr(*a) + vals_expr(*b),
        SExpr::Value(a) => vals_val(*a, SType::I32),
    }
}

/// The values of a formula are used as booleans (directly) or as integers
/// (inside comparisons).
pub open spec fn vals_bool(z: SBool) -> Seq<(SValue, SType)>
    decreases z,
{
    match z {
        SBool::And(a, b) => vals_bool(*a) + vals_bool(*b),
        SBool::Or(a, b) => vals_bool(*a) + vals_bool(*b),
        SBool::Not(a) => vals_bool(*a),
        SBool::Value(a) => vals_val(*a, SType::Bool),
        SBool::Equal(a, b) => vals_expr(a) + vals_expr(b),
        SBool::GreaterEqual(a, b) => vals_expr(a) + vals_expr(b),
        SBool::LowerEqual(a, b) => vals_expr(a) + vals_expr(b),
        SBool::GreaterThan(a, b) => vals_expr(a) + vals_expr(b),
        SBool::LowerThan(a, b) => vals_expr(a) + vals_expr(b),
        SBool::True => Seq::empty(),
        SBool::False => Seq::empty(),
        SBool::ForAll(_, b) => vals_bool(*b),
        SBool::Exists(_, b) => vals_bool(*b),
    }
}

pub open spec fn m_val_list(v: Seq<Val>) -> Seq<(SValue, SType)> {
    v.map_values(|x: Val| x@)
}

fn push_vals_values(s: &Vec<Value>, decs: &mut Vec<Val>)
    ensures
        m_val_list(final(decs)@) == m_val_list(old(decs)@) + vals_values(s@.map_values(|x: Value| x@)),
    decreases s,
{
    let ghost sv = s@.map_values(|x: Value| x@);
    let mut i: usize = 0;
    proof {
        assert(sv.take(0) =~= Seq::<SValue>::empty());
        assert(m_val_list(decs@) =~= m_val_list(old(decs)@) + vals_values(sv.take(0)));
    }
    while i < s.len()
        invariant
            i <= s.len(),
            sv == s@.map_values(|x: Value| x@),
            m_val_list(decs@) == m_val_list(old(decs)@) + vals_values(sv.take(i as int)),
        decreases s.len() - i,
    {
        assert(decreases_to!(s => s@[i as int]));
        push_vals_val(&s[i], decs, Type::Unknown);
        proof {
            assert(sv.take(i + 1).drop_last() =~= sv.take(i as int));
            assert(m_val_list(decs@) =~= m_val_list(old(decs)@) + vals_values(sv.take(i + 1)));
        }
        i = i + 1;
    }
    proof {
        assert(sv.take(s@.len() as int) =~= sv);
    }
}

/// Appends to `decs` the variable that `z` holds, if its value is one, with
/// the type of `z` and a value not known.
pub fn push_vars_val(z: Val, decs: &mut Vec<Var>)
    ensures
        final(decs)@.map_values(|x: Var| x@) == old(decs)@.map_values(|x: Var| x@) + (match z.v@ {
            SValue::Variable(v) => seq![(v, z.t@, SValue::Unknown)],
            _ => Seq::empty(),
        }),
{
    let ghost before = decs@;
    match z.v {
        Value::Variable(v) => {
            let e = Var { n: v, t: z.t, v: Value::Unknown };
            decs.push(e);
            proof {
                assert(decs@.map_values(|x: Var| x@) =~= before.map_values(|x: Var| x@).push(e@));
            }
        },
        _ => {
            proof {
                assert(decs@.map_values(|x: Var| x@) =~= before.map_values(|x: Var| x@) + Seq::empty());
            }
        },
    }
}

/// Appends to `decs` the values of `z`, used at type `t`.
pub fn push_vals_val(z: &Value, decs: &mut Vec<Val>, t: Type)
    ensures
        m_val_list(final(decs)@) == m_val_list(old(decs)@) + vals_val(z@, t@),
    decreases z,
{
    let ghost before = decs@;
    match z {
        Value::Unit => {
            proof {
                assert(m_val_list(decs@) =~= m_val_list(old(decs)@) + vals_val(z@, t@));
            }
            return;
        },
        Value::Unknown => {
            proof {
                assert(m_val_list(decs@) =~= m_val_list(old(decs)@) + vals_val(z@, t@));
            }
            return;
        },
        _ => {},
    }
    decs.push(Val { v: copy_value(z), t: t });
    proof {
        assert(m_val_list(decs@) =~= m_val_list(before) + seq![(z@, t@)]);
    }
    let ghost mid = decs@;
    match z {
        Value::Expr(a) => push_vals_expr(a, decs),
        Value::Bool(a) => push_vals_bool(a, decs),
        Value::Variable(_) => {},
        Value::Tuple(a) => {
            push_vals_values(a, decs);
            proof {
                assert(z@->Tuple_0 =~= a@.map_values(|x: Value| x@));
            }
        },
        Value::Array(a) => {
            push_vals_values(a, decs);
            proof {
                assert(z@->Array_0 =~= a@.map_values(|x: Value| x@));
            }
        },
        Value::FunctionCall(_, a) => {
            push_vals_values(a, decs);
            proof {
                assert(z@->FunctionCall_1 =~= a@.map_values(|x: Value| x@));
            }
        },
        Value::Dereference(a) => push_vals_val(a, decs, Type::Unknown),
        Value::Reference(a) => push_vals_val(a, decs, Type::Unknown),
        Value::ReferenceMutable(a) => push_vals_val(a, decs, Type::Unknown),
        Value::Ternary(c, a, b) => {
            push_vals_bool(c, decs);
            push_vals_val(a, decs, Type::Unknown);
            push_vals_val(b, decs, Type::Unknown);
        },
        _ => {},
    }
    proof {
        assert(m_val_list(decs@) =~= m_val_list(old(decs)@) + vals_val(z@, t@));
    }
}

pub fn push_vals_expr(z: &Expr, decs: &mut Vec<Val>)
    ensures
        m_val_list(final(decs)@) == m_val_list(old(decs)@) + vals_expr(z@),
    decreases z,
{
    match z {
        Expr::Number(_) => {},
        Expr::Op(a, _, b) => {
            push_vals_expr(a, decs);
            push_vals_expr(b, decs);
        },
        Expr::Value(a) => push_vals_val(a, decs, Type::I32),
    }
    proof {
        assert(m_val_list(decs@) =~= m_val_list(old(decs)@) + vals_expr(z@));
    }
}

pub fn push_vals_bool(z: &Bool, decs: &mut Vec<Val>)
    ensures
        m_val_list(final(decs)@) == m_val_list(old(decs)@) + vals_bool(z@),
    decreases z,
{
    match z {
        Bool::And(a, b) => {
            push_vals_bool(a, decs);
            push_vals_bool(b, decs);
        },
        Bool::Or(a, b) => {
            push_vals_bool(a, decs);
            push_vals_bool(b, decs);
        },
        Bool::Not(a) => push_vals_bool(a, decs),
        Bool::Value(a) => push_vals_val(a, decs, Type::Bool),
        Bool::Equal(a, b) => {
            push_vals_expr(a, decs);
            push_vals_expr(b, decs);
        },
        Bool::GreaterEqual(a, b) => {
            push_vals_expr(a, decs);
            push_vals_expr(b, decs);
        },
        Bool::LowerEqual(a, b) => {
            push_vals_expr(a, decs);
            push_vals_expr(b, decs);
        },
        Bool::GreaterThan(a, b) => {
            push_vals_expr(a, decs);
            push_vals_expr(b, decs);
        },
        Bool::LowerThan(a, b) => {
            push_vals_expr(a, decs);
            push_vals_expr(b, decs);
        },
        Bool::True => {},
        Bool::False => {},
        Bool::ForAll(_, b) => push_vals_bool(b, decs),
        Bool::Exists(_, b) => push_vals_bool(b, decs),
    }
    proof {
        assert(m_val_list(decs@) =~= m_val_list(old(decs)@) + vals_bool(z@));
    }
}

/// The values met in a formula.
pub fn get_vals_bool(b: &Bool) -> (r: Vec<Val>)
    ensures
        m_val_list(r@) == vals_bool(b@),
{
    let mut result: Vec<Val> = Vec::new();
    proof {
        assert(m_val_list(result@) =~= Seq::<(SValue, SType)>::empty());
    }
    push_vals_bool(b, &mut result);
    proof {
        assert(m_val_list(result@) =~= vals_bool(b@));
    }
    result
}

// ------------------------------------------------------------------
// Frames.
// ------------------------------------------------------------------
/// The elements of `s` without repetitions, each where it first occurs.
pub open spec fn dedup<A>(s: Seq<A>) -> Seq<A>
    decreases s.len(),
{
    if s.len() == 0 {
        Seq::empty()
    } else {
        let p = dedup(s.drop_last());
        if p.contains(s.last()) {
            p
        } else {
            p.push(s.last())
        }
    }
}

/// What the elements of a tuple binding add: values and variables.
pub open spec fn tuple_context(s: Seq<SCommand>) -> (Seq<(SValue, SType)>, Seq<(SVariable, SType, SValue)>)
    decreases s.len(),
{
    if s.len() == 0 {
        (Seq::empty(), Seq::empty())
    } else {
        let (vals, vars) = tuple_context(s.drop_last());
        match s.last() {
            SCommand::Binding(SBinding::Declaration(n, t, _)) => (vals, vars.push((n, t, SValue::Unknown))),
            SCommand::Binding(SBinding::Assignment(n, t, v, _)) => (vals + vals_val(v, t), vars.push((n, t, v))),
            _ => (vals, vars),
        }
    }
}

/// The frame after `c`, given the frame `f` before it.
pub open spec fn context_command(c: SCommand, f: SFrame) -> SFrame {
    let (temp, vars, assumes) = match c {
        SCommand::ProveControl(SProveControl::Assert(a)) => (vals_bool(a), f.vars, f.assumes),
        SCommand::ProveControl(SProveControl::Assume(a)) => (vals_bool(a), f.vars, f.assumes.push(a)),
        SCommand::ProveControl(SProveControl::LoopInvariant(a)) => (vals_bool(a), f.vars, f.assumes),
        SCommand::Binding(SBinding::Declaration(n, t, _)) => (Seq::empty(), f.vars.push((n, t, SValue::Unknown)), f.assumes),
        SCommand::Binding(SBinding::Assignment(n, t, v, _)) => (vals_val(v, t), f.vars.push((n, t, v)), f.assumes),
        SCommand::Binding(SBinding::Tuple(decs)) => (tuple_context(decs).0, f.vars + tuple_context(decs).1, f.assumes),
        SCommand::Assignment(crate::ast::SAssignment::Single(_, v)) => (vals_val(v, SType::Unknown), f.vars, f.assumes),
        _ => (Seq::empty(), f.vars, f.assumes),
    };
    SFrame { command: c, funcs: f.funcs, vals: dedup(f.vals + temp), vars: vars, assumes: assumes }
}

fn contains_val(v: &Vec<Val>, x: &Val) -> (r: bool)
    ensures
        r == m_val_list(v@).contains(x@),
{
    let mut i: usize = 0;
    while i < v.len()
        invariant
            i <= v.len(),
            forall|j: int| 0 <= j < i ==> v@[j]@ != x@,
        decreases v.len() - i,
    {
        if eq_value(&v[i].v, &x.v) && eq_type(&v[i].t, &x.t) {
            proof {
                assert(m_val_list(v@)[i as int] == x@);
            }
            return true;
        }
        i = i + 1;
    }
    proof {
        if m_val_list(v@).contains(x@) {
            let k = choose|k: int| 0 <= k < m_val_list(v@).len() && m_val_list(v@)[k] == x@;
            assert(v@[k]@ == x@);
        }
    }
    false
}

/// The values of `v` without repetitions, each where it first occurs.
pub fn unique_vals(v: Vec<Val>) -> (r: Vec<Val>)
    ensures
        m_val_list(r@) == dedup(m_val_list(v@)),
{
    let ghost sv = m_val_list(v@);
    let mut r: Vec<Val> = Vec::new();
    let mut i: usize = 0;
    proof {
        assert(sv.take(0) =~= Seq::<(SValue, SType)>::empty());
        assert(m_val_list(r@) =~= dedup(sv.take(0)));
    }
    while i < v.len()
        invariant
            i <= v.len(),
            sv == m_val_list(v@),
            m_val_list(r@) == dedup(sv.take(i as int)),
        decreases v.len() - i,
    {
        proof {
            assert(sv.take(i + 1).drop_last() =~= sv.take(i as int));
            assert(sv.take(i + 1).last() == v@[i as int]@);
        }
        if !contains_val(&r, &v[i]) {
            let ghost before = r@;
            r.push(copy_val(&v[i]));
            proof {
                assert(m_val_list(r@) =~= m_val_list(before).push(v@[i as int]@));
            }
        }
        i = i + 1;
    }
    proof {
        assert(sv.take(v@.len() as int) =~= sv);
    }
    r
}

/// The frame after `command`, given the frame before it: the values met in
/// the command are added (without repetitions), as are the variables it
/// declares and the assumptions it makes.
pub fn get_context_command(command: Command, frame: &Frame) -> (r: Frame)
    ensures
        r@ == context_command(command@, frame@),
{
    let funcs = crate::copying::copy_funcs(&frame.funcs);
    let mut vals = copy_vals(&frame.vals);
    let mut vars = copy_var_list(&frame.vars);
    let mut assumes = crate::copying::copy_bools(&frame.assumes);
    let mut vals_temp: Vec<Val> = Vec::new();
    proof {
        assert(m_val_list(vals_temp@) =~= Seq::<(SValue, SType)>::empty());
        assert(assumes@.map_values(|b: Bool| b@) =~= frame@.assumes);
    }
    let ghost vars0 = vars@.map_values(|x: Var| x@);
    let ghost assumes0 = assumes@.map_values(|b: Bool| b@);
    match &command {
        Command::ProveControl(ProveControl::Assert(a)) => {
            push_vals_bool(a, &mut vals_temp);
        },
        Command::ProveControl(ProveControl::Assume(a)) => {
            assumes.push(copy_bool(a));
            push_vals_bool(a, &mut vals_temp);
            proof {
                assert(assumes@.map_values(|b: Bool| b@) =~= assumes0.push(a@));
            }
        },
        Command::ProveControl(ProveControl::LoopInvariant(a)) => {
            push_vals_bool(a, &mut vals_temp);
        },
        Command::Binding(Binding::Declaration(n, t, _)) => {
            vars.push(Var { n: copy_var(n), t: copy_type(t), v: Value::Unknown });
            proof {
                assert(vars@.map_values(|x: Var| x@) =~= vars0.push((n@, t@, SValue::Unknown)));
            }
        },
        Command::Binding(Binding::Assignment(n, t, v, _)) => {
            push_vals_val(v, &mut vals_temp, copy_type(t));
            vars.push(Var { n: copy_var(n), t: copy_type(t), v: copy_value(v) });
            proof {
                assert(vars@.map_values(|x: Var| x@) =~= vars0.push((n@, t@, v@)));
            }
        },
        Command::Binding(Binding::Tuple(decs)) => {
            let ghost sd = m_cmds(decs@);
            let mut i: usize = 0;
            proof {
                assert(sd.take(0) =~= Seq::<SCommand>::empty());
                assert(vars@.map_values(|x: Var| x@) =~= vars0 + tuple_context(sd.take(0)).1);
            }
            while i < decs.len()
                invariant
                    i <= decs.len(),
                    sd == m_cmds(decs@),
                    m_val_list(vals_temp@) == tuple_context(sd.take(i as int)).0,
                    vars@.map_values(|x: Var| x@) == vars0 + tuple_context(sd.take(i as int)).1,
                decreases decs.len() - i,
            {
                proof {
                    assert(sd.take(i + 1).drop_last() =~= sd.take(i as int));
                    assert(sd.take(i + 1).last() == decs@[i as int]@);
                }
                let ghost vbefore = vars@.map_values(|x: Var| x@);
                match &decs[i] {
                    Command::Binding(Binding::Declaration(n, t, _)) => {
                        vars.push(Var { n: copy_var(n), t: copy_type(t), v: Value::Unknown });
                        proof {
                            assert(vars@.map_values(|x: Var| x@) =~= vbefore.push((n@, t@, SValue::Unknown)));
                        }
                    },
                    Command::Binding(Binding::Assignment(n, t, v, _)) => {
                        push_vals_val(v, &mut vals_temp, copy_type(t));
                        vars.push(Var { n: copy_var(n), t: copy_type(t), v: copy_value(v) });
                        proof {
                            assert(vars@.map_values(|x: Var| x@) =~= vbefore.push((n@, t@, v@)));
                        }
                    },
                    _ => {},
                }
                i = i + 1;
            }
            proof {
                assert(sd.take(decs@.len() as int) =~= sd);
                assert(command@->Binding_0->Tuple_0 =~= sd);
            }
        },
        Command::Assignment(Assignment::Single(_, v)) => {
            push_vals_val(v, &mut vals_temp, Type::Unknown);
        },
        _ => {},
    }
    let ghost before_vals = m_val_list(vals@);
    let ghost temp_m = m_val_list(vals_temp@);
    vals.append(&mut vals_temp);
    proof {
        assert(m_val_list(vals@) =~= before_vals + temp_m);
    }
    let vals = unique_vals(vals);
    let r = Frame { command, funcs, vals, vars, assumes };
    proof {
        assert(r@.funcs =~= frame@.funcs);
    }
    r
}

/// A function's frames: the state as each of its commands is entered.
pub fn get_context_block(block: Vec<Command>, frame: &Frame) -> (r: Vec<Frame>)
    ensures
        r@.len() == 0,
{
    Vec::new()
}

/// `fs` without the first function equal to `f` (unchanged if there is none).
pub open spec fn remove_first(fs: Seq<SFunction>, f: SFunction) -> Seq<SFunction>
    decreases fs.len(),
{
    if fs.len() == 0 {
        fs
    } else if fs[0] == f {
        fs.drop_first()
    } else {
        seq![fs[0]] + remove_first(fs.drop_first(), f)
    }
}

/// The declared parameters, as variables of unknown value.
pub open spec fn input_vars(s: Seq<SBinding>) -> Seq<(SVariable, SType, SValue)>
    decreases s.len(),
{
    if s.len() == 0 {
        Seq::empty()
    } else {
        match s.last() {
            SBinding::Declaration(n, t, _) => input_vars(s.drop_last()).push((n, t, SValue::Unknown)),
            _ => input_vars(s.drop_last()),
        }
    }
}

/// The frame before the first command of `func`: the other functions (with
/// their bodies left out) and the parameters.
pub open spec fn initial_frame(func: SFunction, program: SProgram) -> SFrame {
    SFrame {
        command: SCommand::Noop,
        funcs: remove_first(program.content, func).map_values(|g: SFunction| SFunction { content: Seq::empty(), ..g }),
        vals: Seq::empty(),
        vars: input_vars(func.input),
        assumes: Seq::empty(),
    }
}

/// The frame after the first `k` commands of `func`.
pub open spec fn frame_after(func: SFunction, program: SProgram, k: nat) -> SFrame
    decreases k,
{
    if k == 0 {
        initial_frame(func, program)
    } else {
        context_command(func.content[k - 1], frame_after(func, program, (k - 1) as nat))
    }
}

/// `a` is the start of `b`.
pub open spec fn starts(a: Seq<(SVariable, SType, SValue)>, b: Seq<(SVariable, SType, SValue)>) -> bool {
    a.len() <= b.len() && b.subrange(0, a.len() as int) == a
}

pub open spec fn starts_bools(a: Seq<SBool>, b: Seq<SBool>) -> bool {
    a.len() <= b.len() && b.subrange(0, a.len() as int) == a
}

proof fn lemma_dedup(s: Seq<(SValue, SType)>)
    ensures
        forall|x: (SValue, SType)| #[trigger] dedup(s).contains(x) <==> s.contains(x),
        dedup(s).no_duplicates(),
    decreases s.len(),
{
    if s.len() > 0 {
        let p = dedup(s.drop_last());
        lemma_dedup(s.drop_last());
        assert forall|x: (SValue, SType)| #[trigger] dedup(s).contains(x) <==> s.contains(x) by {
            if s.contains(x) && x != s.last() {
                let k = choose|k: int| 0 <= k < s.len() && s[k] == x;
                assert(s.drop_last()[k] == x);
            }
            if s.drop_last().contains(x) {
                let k = choose|k: int| 0 <= k < s.drop_last().len() && s.drop_last()[k] == x;
                assert(s[k] == x);
            }
            if !p.contains(s.last()) {
                if p.push(s.last()).contains(x) && x != s.last() {
                    let k = choose|k: int| 0 <= k < p.push(s.last()).len() && p.push(s.last())[k] == x;
                    assert(p[k] == x);
                }
                if p.contains(x) {
                    let k = choose|k: int| 0 <= k < p.len() && p[k] == x;
                    assert(p.push(s.last())[k] == x);
                }
                assert(p.push(s.last())[p.len() as int] == s.last());
            }
            assert(s[s.len() - 1] == s.last());
        }
    }
}

/// One command keeps what the frame before it knew: the other functions,
/// the variables and assumptions (new ones come after them), and the values.
proof fn lemma_context_step(c: SCommand, f: SFrame)
    ensures
        context_command(c, f).funcs == f.funcs,
        starts(f.vars, context_command(c, f).vars),
        starts_bools(f.assumes, context_command(c, f).assumes),
        forall|x: (SValue, SType)| #[trigger] f.vals.contains(x) ==> context_command(c, f).vals.contains(x),
        context_command(c, f).vals.no_duplicates(),
{
    let g = context_command(c, f);
    let temp = match c {
        SCommand::ProveControl(SProveControl::Assert(a)) => vals_bool(a),
        SCommand::ProveControl(SProveControl::Assume(a)) => vals_bool(a),
        SCommand::ProveControl(SProveControl::LoopInvariant(a)) => vals_bool(a),
        SCommand::Binding(SBinding::Declaration(n, t, _)) => Seq::empty(),
        SCommand::Binding(SBinding::Assignment(n, t, v, _)) => vals_val(v, t),
        SCommand::Binding(SBinding::Tuple(decs)) => tuple_context(decs).0,
        SCommand::Assignment(crate::ast::SAssignment::Single(_, v)) => vals_val(v, SType::Unknown),
        _ => Seq::empty(),
    };
    assert(g.vals == dedup(f.vals + temp));
    lemma_dedup(f.vals + temp);
    assert forall|x: (SValue, SType)| #[trigger] f.vals.contains(x) implies g.vals.contains(x) by {
        let k = choose|k: int| 0 <= k < f.vals.len() && f.vals[k] == x;
        assert((f.vals + temp)[k] == x);
    }
    assert(g.vars.subrange(0, f.vars.len() as int) =~= f.vars);
    assert(g.assumes.subrange(0, f.assumes.len() as int) =~= f.assumes);
}

/// The frames of a function only grow: every later frame has the same other
/// functions, starts with the variables and assumptions of an earlier one,
/// and holds all its values; no frame after a command holds a value twice.
pub proof fn law_frames_grow(func: SFunction, program: SProgram, j: nat, k: nat)
    requires
        j <= k <= func.content.len(),
    ensures
        frame_after(func, program, k).funcs == initial_frame(func, program).funcs,
        starts(frame_after(func, program, j).vars, frame_after(func, program, k).vars),
        starts_bools(frame_after(func, program, j).assumes, frame_after(func, program, k).assumes),
        forall|x: (SValue, SType)| #[trigger] frame_after(func, program, j).vals.contains(x)
            ==> frame_after(func, program, k).vals.contains(x),
        k > 0 ==> frame_after(func, program, k).vals.no_duplicates(),
    decreases k,
{
    if k > 0 {
        let prev = frame_after(func, program, (k - 1) as nat);
        lemma_context_step(func.content[k - 1], prev);
        if j < k {
            law_frames_grow(func, program, j, (k - 1) as nat);
            let a = frame_after(func, program, j);
            let b = frame_after(func, program, k);
            assert(b == context_command(func.content[k - 1], prev));
            assert(b.vars.subrange(0, a.vars.len() as int) =~= b.vars.subrange(0, prev.vars.len() as int).subrange(0, a.vars.len() as int));
            assert(b.assumes.subrange(0, a.assumes.len() as int) =~= b.assumes.subrange(0, prev.assumes.len() as int).subrange(0, a.assumes.len() as int));
        } else {
            law_frames_grow(func, program, (k - 1) as nat, (k - 1) as nat);
            let b = frame_after(func, program, k);
            assert(b.vars.subrange(0, b.vars.len() as int) =~= b.vars);
            assert(b.assumes.subrange(0, b.assumes.len() as int) =~= b.assumes);
        }
    } else {
        let b = frame_after(func, program, 0);
        assert(b.vars.subrange(0, b.vars.len() as int) =~= b.vars);
        assert(b.assumes.subrange(0, b.assumes.len() as int) =~= b.assumes);
    }
}

fn other_functions(func: &Function, fs: &Vec<Function>) -> (r: Vec<Function>)
    ensures
        r@.map_values(|g: Function| g@) == remove_first(fs@.map_values(|g: Function| g@), func@).map_values(
            |g: SFunction| SFunction { content: Seq::empty(), ..g },
        ),
{
    let ghost sf = fs@.map_values(|g: Function| g@);
    let ghost target = remove_first(sf, func@).map_values(|g: SFunction| SFunction { content: Seq::empty(), ..g });
    let mut r: Vec<Function> = Vec::new();
    let mut removed = false;
    let mut i: usize = 0;
    proof {
        assert(sf.skip(0) =~= sf);
        assert(r@.map_values(|g: Function| g@) + remove_first(sf.skip(0), func@).map_values(|g: SFunction| SFunction { content: Seq::empty(), ..g }) =~= target);
    }
    while i < fs.len()
        invariant
            i <= fs.len(),
            sf == fs@.map_values(|g: Function| g@),
            target == remove_first(sf, func@).map_values(|g: SFunction| SFunction { content: Seq::empty(), ..g }),
            !removed ==> r@.map_values(|g: Function| g@) + remove_first(sf.skip(i as int), func@).map_values(
                |g: SFunction| SFunction { content: Seq::empty(), ..g },
            ) == target,
            removed ==> r@.map_values(|g: Function| g@) + sf.skip(i as int).map_values(
                |g: SFunction| SFunction { content: Seq::empty(), ..g },
            ) == target,
        decreases fs.len() - i,
    {
        proof {
            assert(sf.skip(i as int).drop_first() =~= sf.skip(i + 1));
            assert(sf.skip(i as int)[0] == fs@[i as int]@);
        }
        let ghost before = r@.map_values(|g: Function| g@);
        if !removed && eq_func(&fs[i], func) {
            removed = true;
            proof {
                assert(remove_first(sf.skip(i as int), func@) == sf.skip(i + 1));
            }
        } else {
            let g = &fs[i];
            let h = Function {
                name: crate::copying::copy_string(&g.name),
                content: Vec::new(),
                input: crate::copying::copy_bindings(&g.input),
                output: copy_type(&g.output),
                precondition: copy_bool(&g.precondition),
                postcondition: copy_bool(&g.postcondition),
                return_value: copy_value(&g.return_value),
            };
            r.push(h);
            proof {
                assert(h@.input =~= g@.input);
                assert(h@.content =~= Seq::<SCommand>::empty());
                assert(r@.map_values(|g: Function| g@) =~= before.push(h@));
                let e = SFunction { content: Seq::empty(), ..sf[i as int] };
                assert(h@ == e);
                if removed {
                    assert(sf.skip(i as int).map_values(|g: SFunction| SFunction { content: Seq::empty(), ..g })
                        =~= seq![e] + sf.skip(i + 1).map_values(|g: SFunction| SFunction { content: Seq::empty(), ..g }));
                    assert(before + (seq![e] + sf.skip(i + 1).map_values(|g: SFunction| SFunction { content: Seq::empty(), ..g }))
                        =~= before.push(e) + sf.skip(i + 1).map_values(|g: SFunction| SFunction { content: Seq::empty(), ..g }));
                } else {
                    assert(remove_first(sf.skip(i as int), func@) == seq![sf[i as int]] + remove_first(sf.skip(i + 1), func@));
                    assert((seq![sf[i as int]] + remove_first(sf.skip(i + 1), func@)).map_values(|g: SFunction| SFunction { content: Seq::empty(), ..g })
                        =~= seq![e] + remove_first(sf.skip(i + 1), func@).map_values(|g: SFunction| SFunction { content: Seq::empty(), ..g }));
                    assert(before + (seq![e] + remove_first(sf.skip(i + 1), func@).map_values(|g: SFunction| SFunction { content: Seq::empty(), ..g }))
                        =~= before.push(e) + remove_first(sf.skip(i + 1), func@).map_values(|g: SFunction| SFunction { content: Seq::empty(), ..g }));
                }
            }
        }
        i = i + 1;
    }
    proof {
        assert(sf.skip(fs@.len() as int) =~= Seq::<SFunction>::empty());
        assert(remove_first(Seq::<SFunction>::empty(), func@) =~= Seq::<SFunction>::empty());
        assert(r@.map_values(|g: Function| g@) + Seq::<SFunction>::empty() =~= r@.map_values(|g: Function| g@));
        assert(Seq::<SFunction>::empty().map_values(|g: SFunction| SFunction { content: Seq::empty(), ..g }) =~= Seq::<SFunction>::empty());
    }
    r
}

/// The frames of `func` within `program`: for each command, the state as
/// it is entered.
pub fn get_context_func(func: Function, program: Program) -> (r: Vec<Frame>)
    ensures
        r@.len() == func@.content.len(),
        forall|k: int|
            0 <= k < r@.len() ==> (#[trigger] r@[k])@ == (SFrame {
                command: func@.content[k],
                ..frame_after(func@, program@, k as nat)
            }),
{
    let funcs = other_functions(&func, &program.content);
    let mut vars: Vec<Var> = Vec::new();
    let mut i: usize = 0;
    proof {
        assert(func@.input.take(0) =~= Seq::<SBinding>::empty());
        assert(vars@.map_values(|x: Var| x@) =~= input_vars(func@.input.take(0)));
    }
    while i < func.input.len()
        invariant
            i <= func.input.len(),
            vars@.map_values(|x: Var| x@) == input_vars(func@.input.take(i as int)),
        decreases func.input.len() - i,
    {
        proof {
            assert(func@.input.take(i + 1).drop_last() =~= func@.input.take(i as int));
            assert(func@.input.take(i + 1).last() == func.input@[i as int]@);
        }
        let ghost before = vars@.map_values(|x: Var| x@);
        match &func.input[i] {
            Binding::Declaration(name, t, _) => {
                vars.push(Var { n: copy_var(name), t: copy_type(t), v: Value::Unknown });
                proof {
                    assert(vars@.map_values(|x: Var| x@) =~= before.push((name@, t@, SValue::Unknown)));
                }
            },
            _ => {},
        }
        i = i + 1;
    }
    proof {
        assert(func@.input.take(func@.input.len() as int) =~= func@.input);
    }
    let mut prev_frame = Frame {
        command: Command::Noop,
        funcs: funcs,
        vals: Vec::new(),
        vars: vars,
        assumes: Vec::new(),
    };
    proof {
        assert(program@.content =~= program.content@.map_values(|g: Function| g@));
        assert(prev_frame@.funcs =~= initial_frame(func@, program@).funcs);
        assert(prev_frame@.vals =~= Seq::<(SValue, SType)>::empty());
        assert(prev_frame@.assumes =~= Seq::<SBool>::empty());
        assert(prev_frame@ == frame_after(func@, program@, 0));
    }
    let mut result: Vec<Frame> = Vec::new();
    let mut k: usize = 0;
    while k < func.content.len()
        invariant
            k <= func.content.len(),
            result@.len() == k,
            prev_frame@ == frame_after(func@, program@, k as nat),
            forall|j: int|
                0 <= j < k ==> (#[trigger] result@[j])@ == (SFrame {
                    command: func@.content[j],
                    ..frame_after(func@, program@, j as nat)
                }),
        decreases func.content.len() - k,
    {
        let command = copy_cmd(&func.content[k]);
        let f = get_context_command(copy_cmd(&command), &prev_frame);
        let mut t = prev_frame.clone();
        t.command = command;
        result.push(t);
        prev_frame = f;
        k = k + 1;
    }
    result
}

} // verus!
