//! The variables that a piece of code uses, and those that it assigns to.
use vstd::prelude::*;
use crate::ast::{
    Assignment, Binding, Block, Bool, Command, Expr, ProveControl, SAssignment, SBinding, SBlock,
    SBool, SCommand, SExpr, SProveControl, SValue, SVariable, Value, Variable, m_cmd, m_cmds,
    m_value, m_var, m_vars,
};
use crate::copying::copy_var;
use crate::equality::eq_var;

verus! {

// ------------------------------------------------------------------
// Specification: the sets of variables.
// ------------------------------------------------------------------
/// A variable stands for itself; an element of an array or a tuple also
/// uses the variables of its index.
pub open spec fn vars_var(v: SVariable) -> Set<SVariable>
    decreases v,
{
    match v {
        SVariable::Named(_) => set![v],
        SVariable::Empty => Set::empty(),
        SVariable::ArrayElem(_, i) => set![v] + vars_value(*i),
        SVariable::TupleElem(_, i) => set![v] + vars_value(*i),
    }
}

pub open spec fn vars_values(s: Seq<SValue>) -> Set<SVariable>
    decreases s,
{
    if s.len() == 0 {
        Set::empty()
    } else {
        vars_values(s.drop_last()) + vars_value(s.last())
    }
}

pub open spec fn vars_value(v: SValue) -> Set<SVariable>
    decreases v,
{
    match v {
        SValue::Expr(e) => vars_expr(e),
        SValue::Bool(b) => vars_bool(b),
        SValue::Variable(x) => vars_var(x),
        SValue::Tuple(s) => vars_values(s),
        SValue::Array(s) => vars_values(s),
        SValue::FunctionCall(_, s) => vars_values(s),
        SValue::Dereference(x) => vars_value(*x),
        SValue::Reference(x) => vars_value(*x),
        SValue::ReferenceMutable(x) => vars_value(*x),
        SValue::Unit => Set::empty(),
        SValue::Unknown => Set::empty(),
        SValue::Ternary(c, a, b) => vars_bool(*c) + vars_value(*a) + vars_value(*b),
    }
}

pub open spec fn vars_expr(e: SExpr) -> Set<SVariable>
    decreases e,
{
    match e {
        SExpr::Number(_) => Set::empty(),
        SExpr::Value(v) => vars_value(*v),
        SExpr::Op(a, _, b) => vars_expr(*a) + vars_expr(*b),
    }
}

pub open spec fn vars_bool(b: SBool) -> Set<SVariable>
    decreases b,
{
    match b {
        SBool::And(x, y) => vars_bool(*x) + vars_bool(*y),
        SBool::Or(x, y) => vars_bool(*x) + vars_bool(*y),
        SBool::Not(x) => vars_bool(*x),
        SBool::Value(v) => vars_value(*v),
        SBool::True => Set::empty(),
        SBool::False => Set::empty(),
        SBool::Equal(x, y) => vars_expr(x) + vars_expr(y),
        SBool::GreaterEqual(x, y) => vars_expr(x) + vars_expr(y),
        SBool::LowerEqual(x, y) => vars_expr(x) + vars_expr(y),
        SBool::GreaterThan(x, y) => vars_expr(x) + vars_expr(y),
        SBool::LowerThan(x, y) => vars_expr(x) + vars_expr(y),
        SBool::ForAll(v, x) => vars_var(v) + vars_bool(*x),
        SBool::Exists(v, x) => vars_var(v) + vars_bool(*x),
    }
}

pub open spec fn vars_bools(s: Seq<SBool>) -> Set<SVariable>
    decreases s.len(),
{
    if s.len() == 0 {
        Set::empty()
    } else {
        vars_bools(s.drop_last()) + vars_bool(s.last())
    }
}

pub open spec fn pc_bool(p: SProveControl) -> SBool {
    match p {
        SProveControl::Assert(b) => b,
        SProveControl::Assume(b) => b,
        SProveControl::LoopInvariant(b) => b,
    }
}

pub open spec fn vars_assigns(s: Seq<SAssignment>) -> Set<SVariable>
    decreases s,
{
    if s.len() == 0 {
        Set::empty()
    } else {
        vars_assigns(s.drop_last()) + vars_assign(s.last())
    }
}

pub open spec fn vars_assign(a: SAssignment) -> Set<SVariable>
    decreases a,
{
    match a {
        SAssignment::Tuple(s) => vars_assigns(s),
        SAssignment::Single(x, v) => vars_var(x) + vars_value(v),
    }
}

pub open spec fn vars_binding(b: SBinding) -> Set<SVariable>
    decreases b,
{
    match b {
        SBinding::Declaration(x, _, _) => vars_var(x),
        SBinding::Assignment(x, _, v, _) => vars_var(x) + vars_value(v),
        SBinding::Tuple(s) => vars_cmds(s),
    }
}

pub open spec fn vars_cmds(s: Seq<SCommand>) -> Set<SVariable>
    decreases s,
{
    if s.len() == 0 {
        Set::empty()
    } else {
        vars_cmds(s.drop_last()) + vars_cmd(s.last())
    }
}

pub open spec fn vars_bodies(s: Seq<Seq<SCommand>>) -> Set<SVariable>
    decreases s,
{
    if s.len() == 0 {
        Set::empty()
    } else {
        vars_bodies(s.drop_last()) + vars_cmds(s.last())
    }
}

pub open spec fn vars_block(b: SBlock) -> Set<SVariable>
    decreases b,
{
    match b {
        SBlock::If(conds, bodies, el) => vars_bools(conds) + vars_bodies(bodies) + vars_cmds(el),
        SBlock::ForRange(it, first, last, body, _) => vars_var(it) + vars_value(first) + vars_value(
            last,
        ) + vars_cmds(body),
        SBlock::While(c, body, _, _) => vars_bool(c) + vars_cmds(body),
    }
}

pub open spec fn vars_cmd(c: SCommand) -> Set<SVariable>
    decreases c,
{
    match c {
        SCommand::Binding(b) => vars_binding(b),
        SCommand::Assignment(a) => vars_assign(a),
        SCommand::ProveControl(p) => vars_bool(pc_bool(p)),
        SCommand::Block(b) => vars_block(b),
        SCommand::Noop => Set::empty(),
    }
}

/// The variables that are assigned to.
pub open spec fn affected_assigns(s: Seq<SAssignment>) -> Set<SVariable>
    decreases s,
{
    if s.len() == 0 {
        Set::empty()
    } else {
        affected_assigns(s.drop_last()) + affected_assign(s.last())
    }
}

pub open spec fn affected_assign(a: SAssignment) -> Set<SVariable>
    decreases a,
{
    match a {
        SAssignment::Tuple(s) => affected_assigns(s),
        SAssignment::Single(x, _) => vars_var(x),
    }
}

pub open spec fn affected_binding(b: SBinding) -> Set<SVariable>
    decreases b,
{
    match b {
        SBinding::Declaration(x, _, _) => vars_var(x),
        SBinding::Assignment(x, _, _, _) => vars_var(x),
        SBinding::Tuple(s) => affected_cmds(s),
    }
}

pub open spec fn affected_cmds(s: Seq<SCommand>) -> Set<SVariable>
    decreases s,
{
    if s.len() == 0 {
        Set::empty()
    } else {
        affected_cmds(s.drop_last()) + affected_cmd(s.last())
    }
}

pub open spec fn affected_bodies(s: Seq<Seq<SCommand>>) -> Set<SVariable>
    decreases s,
{
    if s.len() == 0 {
        Set::empty()
    } else {
        affected_bodies(s.drop_last()) + affected_cmds(s.last())
    }
}

pub open spec fn affected_block(b: SBlock) -> Set<SVariable>
    decreases b,
{
    match b {
        SBlock::If(_, bodies, el) => affected_bodies(bodies) + affected_cmds(el),
        SBlock::ForRange(it, _, _, body, _) => vars_var(it) + affected_cmds(body),
        SBlock::While(_, body, _, _) => affected_cmds(body),
    }
}

pub open spec fn affected_cmd(c: SCommand) -> Set<SVariable>
    decreases c,
{
    match c {
        SCommand::Binding(b) => affected_binding(b),
        SCommand::Assignment(a) => affected_assign(a),
        SCommand::ProveControl(_) => Set::empty(),
        SCommand::Block(b) => affected_block(b),
        SCommand::Noop => Set::empty(),
    }
}

/// The set of variables that a list of variables holds.
pub open spec fn var_set(acc: Seq<Variable>) -> Set<SVariable> {
    m_vars(acc).to_set()
}

/// No variable occurs twice in the list.
pub open spec fn distinct_vars(acc: Seq<Variable>) -> bool {
    m_vars(acc).no_duplicates()
}

/// Adds `v` to `acc` unless an equal variable is there already.
pub fn push_var(acc: &mut Vec<Variable>, v: &Variable)
    requires
        distinct_vars(old(acc)@),
    ensures
        distinct_vars(final(acc)@),
        var_set(final(acc)@) == var_set(old(acc)@).insert(v@),
{
    let mut i: usize = 0;
    while i < acc.len()
        invariant
            i <= acc.len(),
            acc@ == old(acc)@,
            distinct_vars(acc@),
            forall|j: int| 0 <= j < i ==> m_var(acc@[j]) != m_var(*v),
        decreases acc.len() - i,
    {
        if eq_var(&acc[i], v) {
            proof {
                assert(m_vars(acc@)[i as int] == v@);
                assert(var_set(acc@) =~= var_set(acc@).insert(v@));
            }
            return;
        }
        i = i + 1;
    }
    let ghost before = acc@;
    acc.push(copy_var(v));
    proof {
        assert(m_vars(acc@) =~= m_vars(before).push(v@));
        m_vars(before).lemma_push_to_set_commute(v@);
        assert(m_vars(acc@).no_duplicates()) by {
            assert forall|a: int, b: int|
                0 <= a < m_vars(acc@).len() && 0 <= b < m_vars(acc@).len() && a != b implies
                m_vars(acc@)[a] != m_vars(acc@)[b] by {
                if a < before.len() && b < before.len() {
                    assert(m_vars(before)[a] != m_vars(before)[b]);
                }
            }
        }
    }
}

pub fn collect_var(v: &Variable, acc: &mut Vec<Variable>)
    requires
        distinct_vars(old(acc)@),
    ensures
        distinct_vars(final(acc)@),
        var_set(final(acc)@) == var_set(old(acc)@) + vars_var(v@),
    decreases v,
{
    match v {
        Variable::Named(_) => {
            push_var(acc, v);
        },
        Variable::Empty => {},
        Variable::ArrayElem(_, i) => {
            push_var(acc, v);
            collect_value(i, acc);
        },
        Variable::TupleElem(_, i) => {
            push_var(acc, v);
            collect_value(i, acc);
        },
    }
    proof {
        assert(var_set(acc@) =~= var_set(old(acc)@) + vars_var(v@));
    }
}

pub fn collect_values(vs: &Vec<Value>, acc: &mut Vec<Variable>)
    requires
        distinct_vars(old(acc)@),
    ensures
        distinct_vars(final(acc)@),
        var_set(final(acc)@) == var_set(old(acc)@) + vars_values(vs@.map_values(|x: Value| m_value(x))),
    decreases vs,
{
    let ghost sv = vs@.map_values(|x: Value| m_value(x));
    let mut i: usize = 0;
    while i < vs.len()
        invariant
            i <= vs.len(),
            sv == vs@.map_values(|x: Value| m_value(x)),
            distinct_vars(acc@),
            var_set(acc@) == var_set(old(acc)@) + vars_values(sv.take(i as int)),
        decreases vs.len() - i,
    {
        assert(decreases_to!(vs => vs@[i as int]));
        collect_value(&vs[i], acc);
        proof {
            assert(sv.take(i + 1).drop_last() =~= sv.take(i as int));
            assert(var_set(acc@) =~= var_set(old(acc)@) + vars_values(sv.take(i + 1)));
        }
        i = i + 1;
    }
    proof {
        assert(sv.take(vs@.len() as int) =~= sv);
    }
}

pub fn collect_value(v: &Value, acc: &mut Vec<Variable>)
    requires
        distinct_vars(old(acc)@),
    ensures
        distinct_vars(final(acc)@),
        var_set(final(acc)@) == var_set(old(acc)@) + vars_value(v@),
    decreases v,
{
    match v {
        Value::Expr(e) => collect_expr(e, acc),
        Value::Bool(b) => collect_bool(b, acc),
        Value::Variable(x) => collect_var(x, acc),
        Value::Tuple(vs) => {
            collect_values(vs, acc);
            proof {
                assert(v@->Tuple_0 =~= vs@.map_values(|x: Value| m_value(x)));
            }
        },
        Value::Array(vs) => {
            collect_values(vs, acc);
            proof {
                assert(v@->Array_0 =~= vs@.map_values(|x: Value| m_value(x)));
            }
        },
        Value::FunctionCall(_, vs) => {
            collect_values(vs, acc);
            proof {
                assert(v@->FunctionCall_1 =~= vs@.map_values(|x: Value| m_value(x)));
            }
        },
        Value::Dereference(x) => collect_value(x, acc),
        Value::Reference(x) => collect_value(x, acc),
        Value::ReferenceMutable(x) => collect_value(x, acc),
        Value::Unit => {
            proof {
                assert(var_set(acc@) =~= var_set(old(acc)@) + vars_value(v@));
            }
        },
        Value::Unknown => {
            proof {
                assert(var_set(acc@) =~= var_set(old(acc)@) + vars_value(v@));
            }
        },
        Value::Ternary(c, a, b) => {
            collect_bool(c, acc);
            collect_value(a, acc);
            collect_value(b, acc);
            proof {
                assert(var_set(acc@) =~= var_set(old(acc)@) + vars_value(v@));
            }
        },
    }
}

pub fn collect_expr(e: &Expr, acc: &mut Vec<Variable>)
    requires
        distinct_vars(old(acc)@),
    ensures
        distinct_vars(final(acc)@),
        var_set(final(acc)@) == var_set(old(acc)@) + vars_expr(e@),
    decreases e,
{
    match e {
        Expr::Number(_) => {
            proof {
                assert(var_set(acc@) =~= var_set(old(acc)@) + vars_expr(e@));
            }
        },
        Expr::Value(v) => collect_value(v, acc),
        Expr::Op(a, _, b) => {
            collect_expr(a, acc);
            collect_expr(b, acc);
            proof {
                assert(var_set(acc@) =~= var_set(old(acc)@) + vars_expr(e@));
            }
        },
    }
}

pub fn collect_bool(b: &Bool, acc: &mut Vec<Variable>)
    requires
        distinct_vars(old(acc)@),
    ensures
        distinct_vars(final(acc)@),
        var_set(final(acc)@) == var_set(old(acc)@) + vars_bool(b@),
    decreases b,
{
    match b {
        Bool::And(x, y) => {
            collect_bool(x, acc);
            collect_bool(y, acc);
        },
        Bool::Or(x, y) => {
            collect_bool(x, acc);
            collect_bool(y, acc);
        },
        Bool::Not(x) => collect_bool(x, acc),
        Bool::Value(v) => collect_value(v, acc),
        Bool::True => {},
        Bool::False => {},
        Bool::Equal(x, y) => {
            collect_expr(x, acc);
            collect_expr(y, acc);
        },
        Bool::GreaterEqual(x, y) => {
            collect_expr(x, acc);
            collect_expr(y, acc);
        },
        Bool::LowerEqual(x, y) => {
            collect_expr(x, acc);
            collect_expr(y, acc);
        },
        Bool::GreaterThan(x, y) => {
            collect_expr(x, acc);
            collect_expr(y, acc);
        },
        Bool::LowerThan(x, y) => {
            collect_expr(x, acc);
            collect_expr(y, acc);
        },
        Bool::ForAll(v, x) => {
            collect_var(v, acc);
            collect_bool(x, acc);
        },
        Bool::Exists(v, x) => {
            collect_var(v, acc);
            collect_bool(x, acc);
        },
    }
    proof {
        assert(var_set(acc@) =~= var_set(old(acc)@) + vars_bool(b@));
    }
}

pub fn collect_bools(bs: &Vec<Bool>, acc: &mut Vec<Variable>)
    requires
        distinct_vars(old(acc)@),
    ensures
        distinct_vars(final(acc)@),
        var_set(final(acc)@) == var_set(old(acc)@) + vars_bools(bs@.map_values(|x: Bool| x@)),
{
    let ghost sv = bs@.map_values(|x: Bool| x@);
    let mut i: usize = 0;
    while i < bs.len()
        invariant
            i <= bs.len(),
            sv == bs@.map_values(|x: Bool| x@),
            distinct_vars(acc@),
            var_set(acc@) == var_set(old(acc)@) + vars_bools(sv.take(i as int)),
        decreases bs.len() - i,
    {
        collect_bool(&bs[i], acc);
        proof {
            assert(sv.take(i + 1).drop_last() =~= sv.take(i as int));
            assert(var_set(acc@) =~= var_set(old(acc)@) + vars_bools(sv.take(i + 1)));
        }
        i = i + 1;
    }
    proof {
        assert(sv.take(bs@.len() as int) =~= sv);
    }
}

pub fn collect_assigns(v: &Vec<Assignment>, acc: &mut Vec<Variable>, affected: bool)
    requires
        distinct_vars(old(acc)@),
    ensures
        distinct_vars(final(acc)@),
        !affected ==> var_set(final(acc)@) == var_set(old(acc)@) + vars_assigns(v@.map_values(|x: Assignment| x@)),
        affected ==> var_set(final(acc)@) == var_set(old(acc)@) + affected_assigns(v@.map_values(|x: Assignment| x@)),
    decreases v,
{
    let ghost sv = v@.map_values(|x: Assignment| x@);
    let mut i: usize = 0;
    while i < v.len()
        invariant
            i <= v.len(),
            sv == v@.map_values(|x: Assignment| x@),
            distinct_vars(acc@),
            !affected ==> var_set(acc@) == var_set(old(acc)@) + vars_assigns(sv.take(i as int)),
            affected ==> var_set(acc@) == var_set(old(acc)@) + affected_assigns(sv.take(i as int)),
        decreases v.len() - i,
    {
        assert(decreases_to!(v => v@[i as int]));
        collect_assign(&v[i], acc, affected);
        proof {
            assert(sv.take(i + 1).drop_last() =~= sv.take(i as int));
            if affected {
                assert(var_set(acc@) =~= var_set(old(acc)@) + affected_assigns(sv.take(i + 1)));
            } else {
                assert(var_set(acc@) =~= var_set(old(acc)@) + vars_assigns(sv.take(i + 1)));
            }
        }
        i = i + 1;
    }
    proof {
        assert(sv.take(v@.len() as int) =~= sv);
    }
}

pub fn collect_assign(a: &Assignment, acc: &mut Vec<Variable>, affected: bool)
    requires
        distinct_vars(old(acc)@),
    ensures
        distinct_vars(final(acc)@),
        !affected ==> var_set(final(acc)@) == var_set(old(acc)@) + vars_assign(a@),
        affected ==> var_set(final(acc)@) == var_set(old(acc)@) + affected_assign(a@),
    decreases a,
{
    match a {
        Assignment::Tuple(v) => {
            collect_assigns(v, acc, affected);
            proof {
                assert(a@->Tuple_0 =~= v@.map_values(|x: Assignment| x@));
            }
        },
        Assignment::Single(x, y) => {
            collect_var(x, acc);
            if !affected {
                collect_value(y, acc);
            }
            proof {
                assert(var_set(acc@) =~= var_set(old(acc)@) + vars_var(x@) + (if affected { Set::empty() } else { vars_value(y@) }));
            }
        },
    }
}

pub fn collect_binding(b: &Binding, acc: &mut Vec<Variable>, affected: bool)
    requires
        distinct_vars(old(acc)@),
    ensures
        distinct_vars(final(acc)@),
        !affected ==> var_set(final(acc)@) == var_set(old(acc)@) + vars_binding(b@),
        affected ==> var_set(final(acc)@) == var_set(old(acc)@) + affected_binding(b@),
    decreases b,
{
    match b {
        Binding::Declaration(x, _, _) => collect_var(x, acc),
        Binding::Assignment(x, _, v, _) => {
            collect_var(x, acc);
            if !affected {
                collect_value(v, acc);
            }
            proof {
                assert(var_set(acc@) =~= var_set(old(acc)@) + vars_var(x@) + (if affected { Set::empty() } else { vars_value(v@) }));
            }
        },
        Binding::Tuple(cs) => {
            collect_cmds(cs, acc, affected);
            proof {
                assert(b@->Tuple_0 =~= m_cmds(cs@));
            }
        },
    }
}

pub fn collect_cmds(cs: &Vec<Command>, acc: &mut Vec<Variable>, affected: bool)
    requires
        distinct_vars(old(acc)@),
    ensures
        distinct_vars(final(acc)@),
        !affected ==> var_set(final(acc)@) == var_set(old(acc)@) + vars_cmds(m_cmds(cs@)),
        affected ==> var_set(final(acc)@) == var_set(old(acc)@) + affected_cmds(m_cmds(cs@)),
    decreases cs,
{
    let ghost sv = m_cmds(cs@);
    let mut i: usize = 0;
    while i < cs.len()
        invariant
            i <= cs.len(),
            sv == m_cmds(cs@),
            distinct_vars(acc@),
            !affected ==> var_set(acc@) == var_set(old(acc)@) + vars_cmds(sv.take(i as int)),
            affected ==> var_set(acc@) == var_set(old(acc)@) + affected_cmds(sv.take(i as int)),
        decreases cs.len() - i,
    {
        assert(decreases_to!(cs => cs@[i as int]));
        collect_cmd(&cs[i], acc, affected);
        proof {
            assert(sv.take(i + 1).drop_last() =~= sv.take(i as int));
            if affected {
                assert(var_set(acc@) =~= var_set(old(acc)@) + affected_cmds(sv.take(i + 1)));
            } else {
                assert(var_set(acc@) =~= var_set(old(acc)@) + vars_cmds(sv.take(i + 1)));
            }
        }
        i = i + 1;
    }
    proof {
        assert(sv.take(cs@.len() as int) =~= sv);
    }
}

pub fn collect_block(b: &Block, acc: &mut Vec<Variable>, affected: bool)
    requires
        distinct_vars(old(acc)@),
    ensures
        distinct_vars(final(acc)@),
        !affected ==> var_set(final(acc)@) == var_set(old(acc)@) + vars_block(b@),
        affected ==> var_set(final(acc)@) == var_set(old(acc)@) + affected_block(b@),
    decreases b,
{
    match b {
        Block::If(conds, bodies, el) => {
            let ghost start = acc@;
            if !affected {
                collect_bools(conds, acc);
                proof {
                    assert(b@->If_0 =~= conds@.map_values(|x: Bool| x@));
                }
            }
            let ghost mid = acc@;
            let ghost sv = b@->If_1;
            let mut i: usize = 0;
            #[verifier::loop_isolation(false)]
            while i < bodies.len()
                invariant
                    i <= bodies.len(),
                    distinct_vars(acc@),
                    !affected ==> var_set(acc@) == var_set(mid) + vars_bodies(sv.take(i as int)),
                    affected ==> var_set(acc@) == var_set(mid) + affected_bodies(sv.take(i as int)),
                decreases bodies.len() - i,
            {
                assert(decreases_to!(b => bodies@[i as int]));
                collect_cmds(&bodies[i], acc, affected);
                proof {
                    assert(sv[i as int] =~= m_cmds(bodies@[i as int]@));
                    assert(sv.take(i + 1).drop_last() =~= sv.take(i as int));
                    if affected {
                        assert(var_set(acc@) =~= var_set(mid) + affected_bodies(sv.take(i + 1)));
                    } else {
                        assert(var_set(acc@) =~= var_set(mid) + vars_bodies(sv.take(i + 1)));
                    }
                }
                i = i + 1;
            }
            proof {
                assert(sv.take(bodies@.len() as int) =~= sv);
            }
            collect_cmds(el, acc, affected);
            proof {
                assert(b@->If_2 =~= m_cmds(el@));
                if affected {
                    assert(start == mid);
                    assert(var_set(acc@) =~= var_set(old(acc)@) + affected_block(b@));
                } else {
                    assert(var_set(acc@) =~= var_set(old(acc)@) + vars_block(b@));
                }
            }
        },
        Block::ForRange(it, first, last, body, _) => {
            collect_var(it, acc);
            if !affected {
                collect_value(first, acc);
                collect_value(last, acc);
            }
            collect_cmds(body, acc, affected);
            proof {
                assert(b@->ForRange_3 =~= m_cmds(body@));
                if affected {
                    assert(var_set(acc@) =~= var_set(old(acc)@) + affected_block(b@));
                } else {
                    assert(var_set(acc@) =~= var_set(old(acc)@) + vars_block(b@));
                }
            }
        },
        Block::While(c, body, _, _) => {
            if !affected {
                collect_bool(c, acc);
            }
            collect_cmds(body, acc, affected);
            proof {
                assert(b@->While_1 =~= m_cmds(body@));
                if affected {
                    assert(var_set(acc@) =~= var_set(old(acc)@) + affected_block(b@));
                } else {
                    assert(var_set(acc@) =~= var_set(old(acc)@) + vars_block(b@));
                }
            }
        },
    }
}

pub fn collect_cmd(c: &Command, acc: &mut Vec<Variable>, affected: bool)
    requires
        distinct_vars(old(acc)@),
    ensures
        distinct_vars(final(acc)@),
        !affected ==> var_set(final(acc)@) == var_set(old(acc)@) + vars_cmd(c@),
        affected ==> var_set(final(acc)@) == var_set(old(acc)@) + affected_cmd(c@),
    decreases c,
{
    match c {
        Command::Binding(b) => collect_binding(b, acc, affected),
        Command::Assignment(a) => collect_assign(a, acc, affected),
        Command::ProveControl(p) => {
            if !affected {
                match p {
                    ProveControl::Assert(b) => collect_bool(b, acc),
                    ProveControl::Assume(b) => collect_bool(b, acc),
                    ProveControl::LoopInvariant(b) => collect_bool(b, acc),
                }
            }
            proof {
                assert(var_set(acc@) =~= var_set(old(acc)@) + (if affected { affected_cmd(c@) } else { vars_cmd(c@) }));
            }
        },
        Command::Block(b) => collect_block(b, acc, affected),
        Command::Noop => {
            proof {
                assert(var_set(acc@) =~= var_set(old(acc)@) + vars_cmd(c@));
            }
        },
    }
}

/// List all the variables that are used.
///
/// The variables come as a list in which none occurs twice, a set in all
/// but its type: vstd describes what a `HashSet` holds only for keys that
/// obey its key model, which it grants to primitive types and not to a
/// `Variable`, so a `HashSet<Variable>` result could carry no contract.
pub trait VarGetter {
    spec fn used_variables(&self) -> Set<SVariable>;

    fn get_variables(&self) -> (r: Vec<Variable>)
        ensures
            distinct_vars(r@),
            var_set(r@) == self.used_variables(),
    ;
}

/// List all the variables that are assigned to, as a list in which none
/// occurs twice (see `VarGetter`).
pub trait AffectedVarGetter {
    spec fn assigned_variables(&self) -> Set<SVariable>;

    fn get_affected_variables(&self) -> (r: Vec<Variable>)
        ensures
            distinct_vars(r@),
            var_set(r@) == self.assigned_variables(),
    ;
}

pub proof fn lemma_empty_var_set()
    ensures
        distinct_vars(Seq::<Variable>::empty()),
        var_set(Seq::<Variable>::empty()) == Set::<SVariable>::empty(),
{
    assert(m_vars(Seq::<Variable>::empty()) =~= Seq::<SVariable>::empty());
    assert(var_set(Seq::<Variable>::empty()) =~= Set::<SVariable>::empty());
}

impl VarGetter for Variable {
    open spec fn used_variables(&self) -> Set<SVariable> {
        vars_var(self@)
    }

    fn get_variables(&self) -> (r: Vec<Variable>) {
        let mut acc: Vec<Variable> = Vec::new();
        proof {
            lemma_empty_var_set();
        }
        collect_var(self, &mut acc);
        proof {
            assert(var_set(acc@) =~= self.used_variables());
        }
        acc
    }
}

impl VarGetter for Value {
    open spec fn used_variables(&self) -> Set<SVariable> {
        vars_value(self@)
    }

    fn get_variables(&self) -> (r: Vec<Variable>) {
        let mut acc: Vec<Variable> = Vec::new();
        proof {
            lemma_empty_var_set();
        }
        collect_value(self, &mut acc);
        proof {
            assert(var_set(acc@) =~= self.used_variables());
        }
        acc
    }
}

impl VarGetter for Expr {
    open spec fn used_variables(&self) -> Set<SVariable> {
        vars_expr(self@)
    }

    fn get_variables(&self) -> (r: Vec<Variable>) {
        let mut acc: Vec<Variable> = Vec::new();
        proof {
            lemma_empty_var_set();
        }
        collect_expr(self, &mut acc);
        proof {
            assert(var_set(acc@) =~= self.used_variables());
        }
        acc
    }
}

impl VarGetter for Bool {
    open spec fn used_variables(&self) -> Set<SVariable> {
        vars_bool(self@)
    }

    fn get_variables(&self) -> (r: Vec<Variable>) {
        let mut acc: Vec<Variable> = Vec::new();
        proof {
            lemma_empty_var_set();
        }
        collect_bool(self, &mut acc);
        proof {
            assert(var_set(acc@) =~= self.used_variables());
        }
        acc
    }
}

impl VarGetter for ProveControl {
    open spec fn used_variables(&self) -> Set<SVariable> {
        vars_bool(pc_bool(self@))
    }

    fn get_variables(&self) -> (r: Vec<Variable>) {
        let mut acc: Vec<Variable> = Vec::new();
        proof {
            lemma_empty_var_set();
        }
        match self {
            ProveControl::Assert(b) => collect_bool(b, &mut acc),
            ProveControl::Assume(b) => collect_bool(b, &mut acc),
            ProveControl::LoopInvariant(b) => collect_bool(b, &mut acc),
        }
        proof {
            assert(var_set(acc@) =~= self.used_variables());
        }
        acc
    }
}

impl VarGetter for Assignment {
    open spec fn used_variables(&self) -> Set<SVariable> {
        vars_assign(self@)
    }

    fn get_variables(&self) -> (r: Vec<Variable>) {
        let mut acc: Vec<Variable> = Vec::new();
        proof {
            lemma_empty_var_set();
        }
        collect_assign(self, &mut acc, false);
        proof {
            assert(var_set(acc@) =~= self.used_variables());
        }
        acc
    }
}

impl VarGetter for Binding {
    open spec fn used_variables(&self) -> Set<SVariable> {
        vars_binding(self@)
    }

    fn get_variables(&self) -> (r: Vec<Variable>) {
        let mut acc: Vec<Variable> = Vec::new();
        proof {
            lemma_empty_var_set();
        }
        collect_binding(self, &mut acc, false);
        proof {
            assert(var_set(acc@) =~= self.used_variables());
        }
        acc
    }
}

impl VarGetter for Block {
    open spec fn used_variables(&self) -> Set<SVariable> {
        vars_block(self@)
    }

    fn get_variables(&self) -> (r: Vec<Variable>) {
        let mut acc: Vec<Variable> = Vec::new();
        proof {
            lemma_empty_var_set();
        }
        collect_block(self, &mut acc, false);
        proof {
            assert(var_set(acc@) =~= self.used_variables());
        }
        acc
    }
}

impl VarGetter for Command {
    open spec fn used_variables(&self) -> Set<SVariable> {
        vars_cmd(self@)
    }

    fn get_variables(&self) -> (r: Vec<Variable>) {
        let mut acc: Vec<Variable> = Vec::new();
        proof {
            lemma_empty_var_set();
        }
        collect_cmd(self, &mut acc, false);
        proof {
            assert(var_set(acc@) =~= self.used_variables());
        }
        acc
    }
}

impl AffectedVarGetter for Assignment {
    open spec fn assigned_variables(&self) -> Set<SVariable> {
        affected_assign(self@)
    }

    fn get_affected_variables(&self) -> (r: Vec<Variable>) {
        let mut acc: Vec<Variable> = Vec::new();
        proof {
            lemma_empty_var_set();
        }
        collect_assign(self, &mut acc, true);
        proof {
            assert(var_set(acc@) =~= self.assigned_variables());
        }
        acc
    }
}

impl AffectedVarGetter for Binding {
    open spec fn assigned_variables(&self) -> Set<SVariable> {
        affected_binding(self@)
    }

    fn get_affected_variables(&self) -> (r: Vec<Variable>) {
        let mut acc: Vec<Variable> = Vec::new();
        proof {
            lemma_empty_var_set();
        }
        collect_binding(self, &mut acc, true);
        proof {
            assert(var_set(acc@) =~= self.assigned_variables());
        }
        acc
    }
}

impl AffectedVarGetter for Block {
    open spec fn assigned_variables(&self) -> Set<SVariable> {
        affected_block(self@)
    }

    fn get_affected_variables(&self) -> (r: Vec<Variable>) {
        let mut acc: Vec<Variable> = Vec::new();
        proof {
            lemma_empty_var_set();
        }
        collect_block(self, &mut acc, true);
        proof {
            assert(var_set(acc@) =~= self.assigned_variables());
        }
        acc
    }
}

impl AffectedVarGetter for Command {
    open spec fn assigned_variables(&self) -> Set<SVariable> {
        affected_cmd(self@)
    }

    fn get_affected_variables(&self) -> (r: Vec<Variable>) {
        let mut acc: Vec<Variable> = Vec::new();
        proof {
            lemma_empty_var_set();
        }
        collect_cmd(self, &mut acc, true);
        proof {
            assert(var_set(acc@) =~= self.assigned_variables());
        }
        acc
    }
}

// ------------------------------------------------------------------
// Every variable that a command assigns to is one that it uses.
// ------------------------------------------------------------------
proof fn lemma_affected_assigns(s: Seq<SAssignment>)
    ensures
        affected_assigns(s).subset_of(vars_assigns(s)),
    decreases s,
{
    if s.len() > 0 {
        lemma_affected_assigns(s.drop_last());
        lemma_affected_assign(s.last());
    }
}

proof fn lemma_affected_assign(a: SAssignment)
    ensures
        affected_assign(a).subset_of(vars_assign(a)),
    decreases a,
{
    match a {
        SAssignment::Tuple(s) => lemma_affected_assigns(s),
        SAssignment::Single(_, _) => {},
    }
}

proof fn lemma_affected_cmds(s: Seq<SCommand>)
    ensures
        affected_cmds(s).subset_of(vars_cmds(s)),
    decreases s,
{
    if s.len() > 0 {
        lemma_affected_cmds(s.drop_last());
        law_affected_subset(s.last());
    }
}

proof fn lemma_affected_bodies(s: Seq<Seq<SCommand>>)
    ensures
        affected_bodies(s).subset_of(vars_bodies(s)),
    decreases s,
{
    if s.len() > 0 {
        lemma_affected_bodies(s.drop_last());
        lemma_affected_cmds(s.last());
    }
}

/// Every variable that a command assigns to is among the variables that it
/// uses: `get_affected_variables` lists a subset of what `get_variables` lists.
pub proof fn law_affected_subset(c: SCommand)
    ensures
        affected_cmd(c).subset_of(vars_cmd(c)),
    decreases c,
{
    match c {
        SCommand::Binding(b) => match b {
            SBinding::Tuple(s) => lemma_affected_cmds(s),
            _ => {},
        },
        SCommand::Assignment(a) => lemma_affected_assign(a),
        SCommand::Block(b) => match b {
            SBlock::If(_, bodies, el) => {
                lemma_affected_bodies(bodies);
                lemma_affected_cmds(el);
            },
            SBlock::ForRange(_, _, _, body, _) => lemma_affected_cmds(body),
            SBlock::While(_, body, _, _) => lemma_affected_cmds(body),
        },
        _ => {},
    }
}

} // verus!
