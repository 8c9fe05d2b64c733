//! Verification conditions of annotated programs: weakest preconditions,
//! computed backwards from each assertion, and the obligations that loops
//! add on their way.
use vstd::prelude::*;
use crate::ast::{
    Program, SProgram, Assignment, Binding, Block, Bool, Command, Expr, Function, ProveControl, SAssignment,
    SBinding, SBlock, SBool, SCommand, SExpr, SFunction, SProveControl, SType, SValue,
    SVariable, Type, Value, Variable, m_assign, m_bools, m_cmd, m_cmds,
};
use crate::copying::{copy_bool, copy_bools, copy_cmd, copy_cmds, copy_expr, copy_func, copy_type, copy_value};
use crate::substitution::{index_swap_bool, isw_bool, sw_bool, swap_bool};
use crate::solver::{check_obligation, holds, obligation_ok};
use crate::validator::{contains_string, m_strs, return_value_name};
use crate::variables::pc_bool;

verus! {

// ------------------------------------------------------------------
// Obligations
// ------------------------------------------------------------------
/// A formula that the solver has to show valid: `premise ==> goal`.
#[derive(Debug, PartialEq, Eq)]
pub struct Obligation {
    pub premise: Bool,
    pub goal: Bool,
}

pub struct SObligation {
    pub premise: SBool,
    pub goal: SBool,
}

impl View for Obligation {
    type V = SObligation;

    open spec fn view(&self) -> SObligation {
        SObligation { premise: self.premise@, goal: self.goal@ }
    }
}

pub open spec fn oblig(p: SBool, q: SBool) -> SObligation {
    SObligation { premise: p, goal: q }
}

pub open spec fn m_obls(s: Seq<Obligation>) -> Seq<SObligation> {
    s.map_values(|o: Obligation| o@)
}

/// What a step of the calculus gives: the precondition and the obligations
/// met on the way, or nothing where the construct is not supported.
pub open spec fn step_view(r: Option<(Bool, Vec<Obligation>)>) -> Option<(SBool, Seq<SObligation>)> {
    match r {
        Some((b, o)) => Some((b@, m_obls(o@))),
        None => None,
    }
}

pub open spec fn opt_bool(r: Option<Bool>) -> Option<SBool> {
    match r {
        Some(b) => Some(b@),
        None => None,
    }
}

pub open spec fn opt_obls(r: Option<Vec<Obligation>>) -> Option<Seq<SObligation>> {
    match r {
        Some(o) => Some(m_obls(o@)),
        None => None,
    }
}

// ------------------------------------------------------------------
// Specification: assignments
// ------------------------------------------------------------------
/// The precondition of an assignment: the postcondition with the value put
/// in place of the variable.  An assignment to a tuple element is not
/// supported.
pub open spec fn wp_assign(a: SAssignment, q: SBool) -> Option<SBool>
    decreases a,
{
    match a {
        SAssignment::Single(x, v) => match x {
            SVariable::Named(_) => Some(sw_bool(q, x, v)),
            SVariable::Empty => Some(q),
            SVariable::ArrayElem(n, i) => Some(isw_bool(q, n, *i, v)),
            SVariable::TupleElem(_, _) => None,
        },
        SAssignment::Tuple(s) => wp_assigns(s, q),
    }
}

/// The parts of a tuple assignment, taken in their order.
pub open spec fn wp_assigns(s: Seq<SAssignment>, q: SBool) -> Option<SBool>
    decreases s,
{
    if s.len() == 0 {
        Some(q)
    } else {
        match wp_assigns(s.drop_last(), q) {
            Some(t) => wp_assign(s.last(), t),
            None => None,
        }
    }
}

/// A tuple binding made of plain assignments, taken in their order.
pub open spec fn wp_tuple(cs: Seq<SCommand>, q: SBool) -> Option<SBool>
    decreases cs.len(),
{
    if cs.len() == 0 {
        Some(q)
    } else {
        match wp_tuple(cs.drop_last(), q) {
            Some(t) => match cs.last() {
                SCommand::Assignment(a) => wp_assign(a, t),
                _ => None,
            },
            None => None,
        }
    }
}

/// A declaration leaves the condition as it is; a binding of a tuple value
/// is not supported.
pub open spec fn wp_binding(b: SBinding, q: SBool) -> Option<SBool> {
    match b {
        SBinding::Declaration(_, _, _) => Some(q),
        SBinding::Assignment(x, _, v, _) => if v is Tuple {
            None
        } else {
            wp_assign(SAssignment::Single(x, v), q)
        },
        SBinding::Tuple(cs) => wp_tuple(cs, q),
    }
}

// ------------------------------------------------------------------
// Specification: conditional blocks
// ------------------------------------------------------------------
/// `t && !ls[0] && !ls[1] && ...`, associated to the left.
pub open spec fn and_nots(t: SBool, ls: Seq<SBool>) -> SBool
    decreases ls.len(),
{
    if ls.len() == 0 {
        t
    } else {
        SBool::And(Box::new(and_nots(t, ls.drop_last())), Box::new(SBool::Not(Box::new(ls.last()))))
    }
}

/// The condition under which each branch runs: its own condition, and none
/// of the conditions before it.
pub open spec fn combine(cs: Seq<SBool>) -> Seq<SBool>
    decreases cs.len(),
{
    if cs.len() == 0 {
        seq![]
    } else {
        let prev = combine(cs.drop_last());
        prev.push(and_nots(cs.last(), prev))
    }
}

pub open spec fn branch_case(combs: Seq<SBool>, ps: Seq<SBool>, i: int) -> SBool {
    SBool::And(Box::new(combs[i]), Box::new(ps[i]))
}

/// `case(0) || case(n-1) || case(n-2) || ... || case(m)`, associated to the left.
pub open spec fn or_from(combs: Seq<SBool>, ps: Seq<SBool>, m: int) -> SBool
    decreases combs.len() - m,
{
    if m >= combs.len() {
        branch_case(combs, ps, 0)
    } else {
        SBool::Or(Box::new(or_from(combs, ps, m + 1)), Box::new(branch_case(combs, ps, m)))
    }
}

/// The precondition of a conditional block, from the conditions (the else
/// branch has `true`) and the preconditions of the branches.
pub open spec fn if_pre(conds: Seq<SBool>, ps: Seq<SBool>) -> SBool {
    or_from(combine(conds), ps, 1)
}

// ------------------------------------------------------------------
// Specification: commands, blocks and lists of commands
// ------------------------------------------------------------------
/// The precondition of a command for the postcondition `q`, and the
/// obligations of the loops in it.  Annotations inside the code leave the
/// condition as it is.
pub open spec fn wp_cmd(c: SCommand, q: SBool) -> Option<(SBool, Seq<SObligation>)>
    decreases c, 0int,
{
    match c {
        SCommand::Binding(b) => match wp_binding(b, q) {
            Some(p) => Some((p, seq![])),
            None => None,
        },
        SCommand::Assignment(a) => match wp_assign(a, q) {
            Some(p) => Some((p, seq![])),
            None => None,
        },
        SCommand::ProveControl(_) => Some((q, seq![])),
        SCommand::Block(b) => wp_block(b, q),
        SCommand::Noop => Some((q, seq![])),
    }
}

/// A conditional block goes through each branch; a `while` loop is checked
/// on its own by Hoare's rule (its invariant is kept by the body, and the
/// invariant with the failed condition implies `q`; where a variant is
/// given, each pass of the body makes it smaller and it is not negative
/// while the loop runs) and has its invariant as precondition.  `for` loops
/// are not supported.
pub open spec fn wp_block(b: SBlock, q: SBool) -> Option<(SBool, Seq<SObligation>)>
    decreases b, 0int,
{
    match b {
        SBlock::If(conds, bodies, el) => if conds.len() != bodies.len() {
            None
        } else {
            match branch_pres(bodies, q, bodies.len() as int) {
                None => None,
                Some((ps, o1)) => match calc(el, q) {
                    None => None,
                    Some((pe, o2)) => Some((if_pre(conds.push(SBool::True), ps.push(pe)), o1 + o2)),
                },
            }
        },
        SBlock::ForRange(_, _, _, _, _) => None,
        SBlock::While(c, body, inv, var) => {
            let run = SBool::And(Box::new(inv), Box::new(c));
            let stop = SBool::And(Box::new(inv), Box::new(SBool::Not(Box::new(c))));
            match check_block(run, body, inv) {
                None => None,
                Some(o1) => match var {
                    None => Some((inv, o1 + seq![oblig(stop, q)])),
                    Some(v) => match check_block(
                        SBool::And(Box::new(run), Box::new(SBool::Equal(v, variant_start()))),
                        body,
                        SBool::LowerThan(v, variant_start()),
                    ) {
                        None => None,
                        Some(o2) => Some(
                            (
                                inv,
                                o1 + seq![oblig(stop, q)] + o2 + seq![oblig(run, SBool::GreaterEqual(v, SExpr::Number(0)))],
                            ),
                        ),
                    },
                },
            }
        },
    }
}

/// The value of the variant as a pass through the body starts, under a
/// name that no program can write (names hold no `%`).
pub open spec fn variant_start() -> SExpr {
    SExpr::Value(Box::new(SValue::Variable(SVariable::Named("%variant"@))))
}

/// The preconditions of the first `k` branches.
pub open spec fn branch_pres(bodies: Seq<Seq<SCommand>>, q: SBool, k: int) -> Option<(Seq<SBool>, Seq<SObligation>)>
    decreases bodies, k,
{
    if k <= 0 || k > bodies.len() {
        Some((seq![], seq![]))
    } else {
        match branch_pres(bodies, q, k - 1) {
            None => None,
            Some((ps, o)) => match calc(bodies[k - 1], q) {
                None => None,
                Some((p, o2)) => Some((ps.push(p), o + o2)),
            },
        }
    }
}

/// The precondition of a list of commands, taken from the last to the first.
pub open spec fn calc(cs: Seq<SCommand>, q: SBool) -> Option<(SBool, Seq<SObligation>)>
    decreases cs, 1int,
{
    if cs.len() == 0 {
        Some((q, seq![]))
    } else {
        match wp_cmd(cs.last(), q) {
            None => None,
            Some((q1, o1)) => match calc(cs.drop_last(), q1) {
                None => None,
                Some((p, o2)) => Some((p, o1 + o2)),
            },
        }
    }
}

/// The obligations of the assertions among the first `k` commands: each
/// must follow from `p` through the code before it.
pub open spec fn triple_obls(p: SBool, cs: Seq<SCommand>, k: int) -> Option<Seq<SObligation>>
    decreases cs, k + 2,
{
    if k <= 0 || k > cs.len() {
        Some(seq![])
    } else {
        match triple_obls(p, cs, k - 1) {
            None => None,
            Some(o) => match cs[k - 1] {
                SCommand::ProveControl(SProveControl::Assert(a)) => match calc(cs.subrange(0, k - 1), a) {
                    None => None,
                    Some((pre, o2)) => Some(o + o2 + seq![oblig(p, pre)]),
                },
                _ => Some(o),
            },
        }
    }
}

/// Everything to show for `{p} cs {q}`: the assertions in `cs`, then `q`.
pub open spec fn check_block(p: SBool, cs: Seq<SCommand>, q: SBool) -> Option<Seq<SObligation>>
    decreases cs, cs.len() + 3,
{
    match triple_obls(p, cs, cs.len() as int) {
        None => None,
        Some(o) => match calc(cs, q) {
            None => None,
            Some((pre, o2)) => Some(o + o2 + seq![oblig(p, pre)]),
        },
    }
}

// ------------------------------------------------------------------
// Lemmas
// ------------------------------------------------------------------
pub proof fn lemma_m_obls_add(a: Seq<Obligation>, b: Seq<Obligation>)
    ensures
        m_obls(a + b) == m_obls(a) + m_obls(b),
{
    assert(m_obls(a + b) =~= m_obls(a) + m_obls(b));
}

proof fn lemma_assigns_none(s: Seq<SAssignment>, q: SBool, j: int)
    requires
        0 <= j <= s.len(),
        wp_assigns(s.take(j), q) is None,
    ensures
        wp_assigns(s, q) is None,
    decreases s.len() - j,
{
    if j < s.len() {
        assert(s.take(j + 1).drop_last() =~= s.take(j));
        lemma_assigns_none(s, q, j + 1);
    } else {
        assert(s.take(j) =~= s);
    }
}

proof fn lemma_tuple_none(s: Seq<SCommand>, q: SBool, j: int)
    requires
        0 <= j <= s.len(),
        wp_tuple(s.take(j), q) is None,
    ensures
        wp_tuple(s, q) is None,
    decreases s.len() - j,
{
    if j < s.len() {
        assert(s.take(j + 1).drop_last() =~= s.take(j));
        lemma_tuple_none(s, q, j + 1);
    } else {
        assert(s.take(j) =~= s);
    }
}

proof fn lemma_branches_none(bodies: Seq<Seq<SCommand>>, q: SBool, j: int)
    requires
        0 < j <= bodies.len(),
        branch_pres(bodies, q, j) is None,
    ensures
        branch_pres(bodies, q, bodies.len() as int) is None,
    decreases bodies.len() - j,
{
    if j < bodies.len() {
        lemma_branches_none(bodies, q, j + 1);
    }
}

proof fn lemma_triples_none(p: SBool, cs: Seq<SCommand>, j: int)
    requires
        0 < j <= cs.len(),
        triple_obls(p, cs, j) is None,
    ensures
        triple_obls(p, cs, cs.len() as int) is None,
    decreases cs.len() - j,
{
    if j < cs.len() {
        lemma_triples_none(p, cs, j + 1);
    }
}

// ------------------------------------------------------------------
// Implementation: assignments
// ------------------------------------------------------------------
/// The precondition of `x = v`.
fn pre_single(x: &Variable, v: &Value, q: Bool) -> (r: Option<Bool>)
    ensures
        opt_bool(r) == wp_assign(SAssignment::Single(x@, v@), q@),
{
    match x {
        Variable::Named(_) => Some(swap_bool(&q, x, v)),
        Variable::Empty => Some(q),
        Variable::ArrayElem(n, i) => Some(index_swap_bool(&q, n, i, v)),
        Variable::TupleElem(_, _) => None,
    }
}

pub open spec fn m_assign_elems(v: Seq<Assignment>) -> Seq<SAssignment> {
    Seq::new(v.len(), |i: int| if 0 <= i < v.len() { m_assign(v[i]) } else { SAssignment::Tuple(seq![]) })
}

/// The precondition of the parts of a tuple assignment, in their order.
#[verifier::loop_isolation(false)]
fn pre_assigns(parts: &Vec<Assignment>, q: Bool) -> (r: Option<Bool>)
    ensures
        opt_bool(r) == wp_assigns(m_assign_elems(parts@), q@),
    decreases parts,
{
    let ghost s = m_assign_elems(parts@);
    let ghost q0 = q@;
    let mut t = q;
    let mut k: usize = 0;
    assert(s.take(0) =~= Seq::<SAssignment>::empty());
    while k < parts.len()
        invariant
            k <= parts.len(),
            s.len() == parts.len(),
            wp_assigns(s.take(k as int), q0) == Some(t@),
        decreases parts.len() - k,
    {
        assert(decreases_to!(parts => parts@[k as int]));
        assert(s.take(k + 1).drop_last() =~= s.take(k as int));
        assert(s[k as int] == parts@[k as int]@);
        match get_pre_assignment(&parts[k], t) {
            Some(t2) => {
                t = t2;
            },
            None => {
                proof {
                    lemma_assigns_none(s, q0, k + 1);
                }
                return None;
            },
        }
        k = k + 1;
    }
    assert(s.take(k as int) =~= s);
    Some(t)
}

/// The precondition of an assignment.
pub fn get_pre_assignment(a: &Assignment, q: Bool) -> (r: Option<Bool>)
    ensures
        opt_bool(r) == wp_assign(a@, q@),
    decreases a,
{
    match a {
        Assignment::Single(x, v) => pre_single(x, v, q),
        Assignment::Tuple(parts) => {
            assert(a@->Tuple_0 =~= m_assign_elems(parts@));
            pre_assigns(parts, q)
        },
    }
}

/// The precondition of a binding.
#[verifier::loop_isolation(false)]
pub fn get_pre_binding(b: &Binding, q: Bool) -> (r: Option<Bool>)
    ensures
        opt_bool(r) == wp_binding(b@, q@),
{
    match b {
        Binding::Declaration(_, _, _) => Some(q),
        Binding::Assignment(x, _, v, _) => match v {
            Value::Tuple(_) => None,
            _ => pre_single(x, v, q),
        },
        Binding::Tuple(cs) => {
            let ghost s = b@->Tuple_0;
            let ghost q0 = q@;
            let mut t = q;
            let mut k: usize = 0;
            assert(s.take(0) =~= Seq::<SCommand>::empty());
            while k < cs.len()
                invariant
                    k <= cs.len(),
                    s.len() == cs.len(),
                    s == b@->Tuple_0,
                    forall|j: int| 0 <= j < cs.len() ==> s[j] == #[trigger] m_cmd(cs@[j]),
                    wp_tuple(s.take(k as int), q0) == Some(t@),
                decreases cs.len() - k,
            {
                assert(s.take(k + 1).drop_last() =~= s.take(k as int));
                assert(s[k as int] == m_cmd(cs@[k as int]));
                match &cs[k] {
                    Command::Assignment(a) => {
                        match get_pre_assignment(a, t) {
                            Some(t2) => {
                                t = t2;
                            },
                            None => {
                                proof {
                                    lemma_tuple_none(s, q0, k + 1);
                                }
                                return None;
                            },
                        }
                    },
                    _ => {
                        proof {
                            lemma_tuple_none(s, q0, k + 1);
                        }
                        return None;
                    },
                }
                k = k + 1;
            }
            assert(s.take(k as int) =~= s);
            Some(t)
        },
    }
}

// ------------------------------------------------------------------
// Implementation: commands, blocks and lists of commands
// ------------------------------------------------------------------
pub open spec fn extend_step(x: Option<(SBool, Seq<SObligation>)>, pre: Seq<SObligation>) -> Option<(SBool, Seq<SObligation>)> {
    match x {
        Some((p, o)) => Some((p, pre + o)),
        None => None,
    }
}

proof fn lemma_obls_push(a: Seq<Obligation>, o: Obligation)
    ensures
        m_obls(a.push(o)) == m_obls(a).push(o@),
{
    assert(m_obls(a.push(o)) =~= m_obls(a).push(o@));
}

proof fn lemma_obls_empty()
    ensures
        m_obls(Seq::<Obligation>::empty()) == Seq::<SObligation>::empty(),
{
    assert(m_obls(Seq::<Obligation>::empty()) =~= Seq::<SObligation>::empty());
}

/// The precondition of a command, with the obligations of its loops.
pub fn get_pre_command(c: &Command, q: Bool) -> (r: Option<(Bool, Vec<Obligation>)>)
    ensures
        step_view(r) == wp_cmd(c@, q@),
    decreases c, 0int,
{
    proof {
        lemma_obls_empty();
    }
    match c {
        Command::Binding(b) => match get_pre_binding(b, q) {
            Some(p) => Some((p, Vec::new())),
            None => None,
        },
        Command::Assignment(a) => match get_pre_assignment(a, q) {
            Some(p) => Some((p, Vec::new())),
            None => None,
        },
        Command::ProveControl(_) => Some((q, Vec::new())),
        Command::Block(b) => get_pre_block(b, q),
        Command::Noop => Some((q, Vec::new())),
    }
}

/// The precondition of the first `end` commands of `cs`, taken backwards.
#[verifier::loop_isolation(false)]
pub fn calc_prefix(cs: &Vec<Command>, end: usize, q: Bool) -> (r: Option<(Bool, Vec<Obligation>)>)
    requires
        end <= cs.len(),
    ensures
        step_view(r) == calc(m_cmds(cs@).take(end as int), q@),
    decreases cs, 1int,
{
    let ghost c = m_cmds(cs@);
    let ghost q0 = q@;
    let mut t = q;
    let mut obls: Vec<Obligation> = Vec::new();
    let mut i: usize = end;
    proof {
        lemma_obls_empty();
        assert(m_obls(obls@) + Seq::<SObligation>::empty() =~= m_obls(obls@));
    }
    while i > 0
        invariant
            i <= end,
            end <= cs.len(),
            c == m_cmds(cs@),
            calc(c.take(end as int), q0) == extend_step(calc(c.take(i as int), t@), m_obls(obls@)),
        decreases i,
    {
        i = i - 1;
        assert(decreases_to!(cs => cs@[i as int]));
        let ghost t_old = t@;
        assert(c.take(i + 1).drop_last() =~= c.take(i as int));
        assert(c.take(i + 1).last() == m_cmd(cs@[i as int]));
        match get_pre_command(&cs[i], t) {
            None => {
                return None;
            },
            Some((t2, o1)) => {
                let ghost old_obls = m_obls(obls@);
                let ghost o1m = m_obls(o1@);
                let mut o1 = o1;
                proof {
                    lemma_m_obls_add(obls@, o1@);
                }
                obls.append(&mut o1);
                t = t2;
                proof {
                    match calc(c.take(i as int), t@) {
                        Some((pp, o2)) => {
                            assert(old_obls + (o1m + o2) =~= (old_obls + o1m) + o2);
                        },
                        None => {},
                    }
                }
            },
        }
    }
    assert(c.take(0) =~= Seq::<SCommand>::empty());
    assert(m_obls(obls@) + Seq::<SObligation>::empty() =~= m_obls(obls@));
    Some((t, obls))
}

/// Everything to show for `{p} cs {q}`.
#[verifier::loop_isolation(false)]
pub fn block_conditions(p: &Bool, cs: &Vec<Command>, q: &Bool) -> (r: Option<Vec<Obligation>>)
    ensures
        opt_obls(r) == check_block(p@, m_cmds(cs@), q@),
    decreases cs, 2int,
{
    let ghost c = m_cmds(cs@);
    let mut obls: Vec<Obligation> = Vec::new();
    let mut k: usize = 0;
    proof {
        lemma_obls_empty();
    }
    while k < cs.len()
        invariant
            k <= cs.len(),
            c == m_cmds(cs@),
            triple_obls(p@, c, k as int) == Some(m_obls(obls@)),
        decreases cs.len() - k,
    {
        assert(c[k as int] == m_cmd(cs@[k as int]));
        match &cs[k] {
            Command::ProveControl(ProveControl::Assert(a)) => {
                match calc_prefix(cs, k, copy_bool(a)) {
                    None => {
                        proof {
                            lemma_triples_none(p@, c, k + 1);
                        }
                        return None;
                    },
                    Some((pre, o2)) => {
                        let mut o2 = o2;
                        proof {
                            lemma_m_obls_add(obls@, o2@);
                        }
                        obls.append(&mut o2);
                        let ob = Obligation { premise: copy_bool(p), goal: pre };
                        proof {
                            lemma_obls_push(obls@, ob);
                        }
                        obls.push(ob);
                    },
                }
            },
            _ => {},
        }
        k = k + 1;
    }
    assert(c.take(cs.len() as int) =~= c);
    match calc_prefix(cs, cs.len(), copy_bool(q)) {
        None => None,
        Some((pre, o2)) => {
            let mut o2 = o2;
            proof {
                lemma_m_obls_add(obls@, o2@);
            }
            obls.append(&mut o2);
            let ob = Obligation { premise: copy_bool(p), goal: pre };
            proof {
                lemma_obls_push(obls@, ob);
            }
            obls.push(ob);
            Some(obls)
        },
    }
}

/// The precondition of a conditional block from its conditions (the else
/// branch has `true`) and the preconditions of its branches.
#[verifier::loop_isolation(false)]
pub fn if_precondition(conds: &Vec<Bool>, ps: &Vec<Bool>) -> (r: Bool)
    requires
        conds.len() == ps.len(),
        conds.len() >= 1,
    ensures
        r@ == if_pre(m_bools(conds@), m_bools(ps@)),
{
    let ghost cm = m_bools(conds@);
    let mut combs: Vec<Bool> = Vec::new();
    let mut i: usize = 0;
    assert(cm.take(0) =~= Seq::<SBool>::empty());
    assert(m_bools(combs@) =~= Seq::<SBool>::empty());
    while i < conds.len()
        invariant
            i <= conds.len(),
            combs.len() == i,
            m_bools(combs@) == combine(cm.take(i as int)),
        decreases conds.len() - i,
    {
        let ghost prev = m_bools(combs@);
        let mut temp = copy_bool(&conds[i]);
        let mut j: usize = 0;
        assert(prev.take(0) =~= Seq::<SBool>::empty());
        while j < combs.len()
            invariant
                j <= combs.len(),
                combs.len() == i,
                prev == m_bools(combs@),
                temp@ == and_nots(cm[i as int], prev.take(j as int)),
            decreases combs.len() - j,
        {
            let nb = Bool::Not(Box::new(copy_bool(&combs[j])));
            assert(nb@ == SBool::Not(Box::new(prev[j as int])));
            assert(prev.take(j + 1).drop_last() =~= prev.take(j as int));
            temp = Bool::And(Box::new(temp), Box::new(nb));
            j = j + 1;
        }
        assert(prev.take(j as int) =~= prev);
        assert(cm.take(i + 1).drop_last() =~= cm.take(i as int));
        combs.push(temp);
        assert(m_bools(combs@) =~= prev.push(temp@));
        i = i + 1;
    }
    assert(cm.take(i as int) =~= cm);
    let ghost cb = m_bools(combs@);
    let ghost pm = m_bools(ps@);
    let n = combs.len();
    let mut acc = Bool::And(Box::new(copy_bool(&combs[0])), Box::new(copy_bool(&ps[0])));
    let mut m: usize = n;
    while m > 1
        invariant
            1 <= m <= n,
            n == combs.len(),
            n == ps.len(),
            cb.len() == n,
            acc@ == or_from(cb, pm, m as int),
        decreases m,
    {
        m = m - 1;
        let case_m = Bool::And(Box::new(copy_bool(&combs[m])), Box::new(copy_bool(&ps[m])));
        assert(case_m@ == branch_case(cb, pm, m as int));
        acc = Bool::Or(Box::new(acc), Box::new(case_m));
    }
    acc
}

/// The precondition of a block, with the obligations of its loops.
pub fn get_pre_block(b: &Block, q: Bool) -> (r: Option<(Bool, Vec<Obligation>)>)
    ensures
        step_view(r) == wp_block(b@, q@),
    decreases b, 0int,
{
    match b {
        Block::If(conds, bodies, el) => {
            if conds.len() != bodies.len() {
                return None;
            }
            let ghost bs = b@->If_1;
            let mut ps: Vec<Bool> = Vec::new();
            let mut obls: Vec<Obligation> = Vec::new();
            let mut i: usize = 0;
            proof {
                lemma_obls_empty();
                assert(m_bools(ps@) =~= Seq::<SBool>::empty());
            }
            #[verifier::loop_isolation(false)]
            while i < bodies.len()
                invariant
                    i <= bodies.len(),
                    bs == b@->If_1,
                    bs.len() == bodies.len(),
                    ps@.len() == i,
                    branch_pres(bs, q@, i as int) == Some((m_bools(ps@), m_obls(obls@))),
                decreases bodies.len() - i,
            {
                assert(decreases_to!(b => bodies@[i as int]));
                assert(bs[i as int] =~= m_cmds(bodies@[i as int]@));
                assert(m_cmds(bodies@[i as int]@).take(bodies@[i as int].len() as int) =~= bs[i as int]);
                let ghost old_ps = m_bools(ps@);
                match calc_prefix(&bodies[i], bodies[i].len(), copy_bool(&q)) {
                    None => {
                        proof {
                            lemma_branches_none(bs, q@, i + 1);
                        }
                        return None;
                    },
                    Some((p, o2)) => {
                        let mut o2 = o2;
                        proof {
                            lemma_m_obls_add(obls@, o2@);
                        }
                        obls.append(&mut o2);
                        ps.push(p);
                        assert(m_bools(ps@) =~= old_ps.push(p@));
                    },
                }
                i = i + 1;
            }
            assert(b@->If_2 =~= m_cmds(el@));
            assert(m_cmds(el@).take(el@.len() as int) =~= m_cmds(el@));
            match calc_prefix(el, el.len(), q) {
                None => None,
                Some((pe, o3)) => {
                    let mut cs2 = copy_bools(conds);
                    let ghost old_c = m_bools(cs2@);
                    cs2.push(Bool::True);
                    let ghost old_ps = m_bools(ps@);
                    ps.push(pe);
                    proof {
                        assert(old_c =~= b@->If_0);
                        assert(m_bools(cs2@) =~= b@->If_0.push(SBool::True));
                        assert(m_bools(ps@) =~= old_ps.push(pe@));
                    }
                    let pre = if_precondition(&cs2, &ps);
                    let mut o3 = o3;
                    proof {
                        lemma_m_obls_add(obls@, o3@);
                    }
                    obls.append(&mut o3);
                    Some((pre, obls))
                },
            }
        },
        Block::ForRange(_, _, _, _, _) => None,
        Block::While(c, body, inv, var) => {
            assert(b@->While_1 =~= m_cmds(body@));
            pre_while(c, body, inv, var, q)
        },
    }
}

pub open spec fn opt_expr(v: Option<Expr>) -> Option<SExpr> {
    match v {
        Some(e) => Some(e@),
        None => None,
    }
}

/// The precondition of `while c { body }` with invariant `inv` and an
/// optional variant, and its obligations.
fn pre_while(c: &Bool, body: &Vec<Command>, inv: &Bool, var: &Option<Expr>, q: Bool) -> (r: Option<(Bool, Vec<Obligation>)>)
    ensures
        step_view(r) == wp_block(SBlock::While(c@, m_cmds(body@), inv@, opt_expr(*var)), q@),
    decreases body, 3int,
{
    let run = Bool::And(Box::new(copy_bool(inv)), Box::new(copy_bool(c)));
    let nc = Bool::Not(Box::new(copy_bool(c)));
    assert(nc@ == SBool::Not(Box::new(c@)));
    let stop = Bool::And(Box::new(copy_bool(inv)), Box::new(nc));
    assert(stop@ == SBool::And(Box::new(inv@), Box::new(SBool::Not(Box::new(c@)))));
    match block_conditions(&run, body, inv) {
        None => None,
        Some(o1) => {
            let mut o1 = o1;
            let ghost a1 = m_obls(o1@);
            let ob = Obligation { premise: stop, goal: q };
            let ghost obv = ob@;
            proof {
                lemma_obls_push(o1@, ob);
            }
            o1.push(ob);
            assert(m_obls(o1@) =~= a1 + seq![obv]);
            match var {
                None => Some((copy_bool(inv), o1)),
                Some(v) => {
                    let v0 = variant_start_exec();
                    let eq = Bool::Equal(copy_expr(v), copy_expr(&v0));
                    assert(eq@ == SBool::Equal(v@, variant_start()));
                    assert(run@ == SBool::And(Box::new(inv@), Box::new(c@)));
                    let start = Bool::And(Box::new(copy_bool(&run)), Box::new(eq));
                    assert(start@ == SBool::And(Box::new(run@), Box::new(SBool::Equal(v@, variant_start()))));
                    let smaller = Bool::LowerThan(copy_expr(v), v0);
                    assert(smaller@ == SBool::LowerThan(v@, variant_start()));
                    let ghost a1b = m_obls(o1@);
                    match block_conditions(&start, body, &smaller) {
                        None => None,
                        Some(o2) => {
                            let mut o2 = o2;
                            proof {
                                lemma_m_obls_add(o1@, o2@);
                            }
                            o1.append(&mut o2);
                            let zero = Expr::Number(0);
                            assert(zero@ == SExpr::Number(0));
                            let goal = Bool::GreaterEqual(copy_expr(v), zero);
                            let ob2 = Obligation { premise: run, goal };
                            let ghost a2 = m_obls(o1@);
                            proof {
                                lemma_obls_push(o1@, ob2);
                            }
                            o1.push(ob2);
                            assert(m_obls(o1@) =~= a2 + seq![ob2@]);
                            assert(ob2@ == oblig(run@, SBool::GreaterEqual(v@, SExpr::Number(0))));
                            Some((copy_bool(inv), o1))
                        },
                    }
                },
            }
        },
    }
}

fn variant_start_exec() -> (r: Expr)
    ensures
        r@ == variant_start(),
{
    let name = "%variant".to_string();
    proof {
        reveal_strlit("%variant");
    }
    let x = Variable::Named(name);
    assert(x@ == SVariable::Named("%variant"@));
    let v = Value::Variable(x);
    assert(v@ == SValue::Variable(SVariable::Named("%variant"@)));
    Expr::Value(Box::new(v))
}

// ------------------------------------------------------------------
// Specification: functions and programs
// ------------------------------------------------------------------
/// The command that stores the returned value in `return_value`, where the
/// postcondition can speak of it.  Functions returning references are not
/// supported.
pub open spec fn return_cmd(output: SType, rv: SValue) -> Option<SCommand> {
    match output {
        SType::Reference(_) => None,
        SType::ReferenceMutable(_) => None,
        SType::Unit => Some(SCommand::Noop),
        _ => Some(
            SCommand::Binding(SBinding::Assignment(SVariable::Named(return_value_name()), output, rv, false)),
        ),
    }
}

/// The body of a function as it is proved: a leading no-op (so that an
/// assertion may come first), the commands, then the returned value.
pub open spec fn wrapped_code(f: SFunction) -> Option<Seq<SCommand>> {
    match return_cmd(f.output, f.return_value) {
        Some(c) => Some(seq![SCommand::Noop] + f.content + seq![c]),
        None => None,
    }
}

pub open spec fn function_obligations(f: SFunction) -> Option<Seq<SObligation>> {
    match wrapped_code(f) {
        Some(cs) => check_block(f.precondition, cs, f.postcondition),
        None => None,
    }
}

/// A function that returns a value (its output is neither the unit type
/// nor a reference; a `bool` too) is proved with its body followed by the
/// binding of `return_value` to the returned value: its postcondition is
/// checked with `return_value` replaced by what the function returns.
pub proof fn law_return_value_bound(f: SFunction, q: SBool)
    requires
        !(f.output is Unit),
        !(f.output is Reference),
        !(f.output is ReferenceMutable),
    ensures
        wrapped_code(f) == Some(
            seq![SCommand::Noop] + f.content + seq![
                SCommand::Binding(
                    SBinding::Assignment(
                        SVariable::Named(seq!['r', 'e', 't', 'u', 'r', 'n', '_', 'v', 'a', 'l', 'u', 'e']),
                        f.output,
                        f.return_value,
                        false,
                    ),
                ),
            ],
        ),
        !(f.return_value is Tuple) ==> calc(wrapped_code(f)->Some_0, q) == calc(
            seq![SCommand::Noop] + f.content,
            sw_bool(q, SVariable::Named(seq!['r', 'e', 't', 'u', 'r', 'n', '_', 'v', 'a', 'l', 'u', 'e']), f.return_value),
        ),
{
    assert(return_value_name() =~= seq!['r', 'e', 't', 'u', 'r', 'n', '_', 'v', 'a', 'l', 'u', 'e']);
    let cs = wrapped_code(f)->Some_0;
    let pre = seq![SCommand::Noop] + f.content;
    assert(cs.drop_last() =~= pre);
    if !(f.return_value is Tuple) {
        let x = SVariable::Named(return_value_name());
        let b = SBinding::Assignment(x, f.output, f.return_value, false);
        assert(cs.last() == SCommand::Binding(b));
        assert(wp_assign(SAssignment::Single(x, f.return_value), q) == Some(sw_bool(q, x, f.return_value)));
        assert(wp_binding(b, q) == Some(sw_bool(q, x, f.return_value)));
        assert(wp_cmd(cs.last(), q) == Some((sw_bool(q, x, f.return_value), Seq::<SObligation>::empty())));
        match calc(pre, sw_bool(q, SVariable::Named(return_value_name()), f.return_value)) {
            Some((p, o)) => {
                assert(seq![] + o =~= o);
            },
            None => {},
        }
    }
}

/// A function that returns nothing is proved with its body alone (between
/// two no-ops); one that returns a reference is not supported.
pub proof fn law_no_return_value(f: SFunction)
    ensures
        f.output is Unit ==> wrapped_code(f) == Some(seq![SCommand::Noop] + f.content + seq![SCommand::Noop]),
        (f.output is Reference || f.output is ReferenceMutable) ==> wrapped_code(f) is None,
{
}

/// With no name given, every function is proved.
pub open spec fn selected(name: Seq<char>, names: Seq<Seq<char>>) -> bool {
    names.len() == 0 || names.contains(name)
}

/// The obligations of the selected functions, in their order.
pub open spec fn program_obligations(fs: Seq<SFunction>, names: Seq<Seq<char>>) -> Option<Seq<SObligation>>
    decreases fs.len(),
{
    if fs.len() == 0 {
        Some(seq![])
    } else {
        match program_obligations(fs.drop_last(), names) {
            None => None,
            Some(o) => if selected(fs.last().name, names) {
                match function_obligations(fs.last()) {
                    None => None,
                    Some(o2) => Some(o + o2),
                }
            } else {
                Some(o)
            },
        }
    }
}

/// An obligation the solver can take, and that holds.
pub open spec fn good(o: SObligation) -> bool {
    obligation_ok(o) && holds(o)
}

pub open spec fn all_ok(os: Seq<SObligation>) -> bool {
    forall|i: int| 0 <= i < os.len() ==> #[trigger] good(os[i])
}

proof fn lemma_program_has(fs: Seq<SFunction>, nm: Seq<Seq<char>>, i: int)
    requires
        0 <= i < fs.len(),
        selected(fs[i].name, nm),
        program_obligations(fs, nm) is Some,
    ensures
        function_obligations(fs[i]) is Some,
        forall|x: SObligation| #[trigger] function_obligations(fs[i])->Some_0.contains(x)
            ==> program_obligations(fs, nm)->Some_0.contains(x),
    decreases fs.len(),
{
    let os = program_obligations(fs, nm)->Some_0;
    let prev = program_obligations(fs.drop_last(), nm)->Some_0;
    if i < fs.len() - 1 {
        assert(fs.drop_last()[i] == fs[i]);
        lemma_program_has(fs.drop_last(), nm, i);
        assert forall|x: SObligation| #[trigger] prev.contains(x) implies os.contains(x) by {
            let k = choose|k: int| 0 <= k < prev.len() && prev[k] == x;
            if selected(fs.last().name, nm) {
                let o2 = function_obligations(fs.last())->Some_0;
                assert(os == prev + o2);
                assert(os[k] == x);
            } else {
                assert(os == prev);
            }
        }
    } else {
        let o2 = function_obligations(fs.last())->Some_0;
        assert(os == prev + o2);
        assert forall|x: SObligation| #[trigger] o2.contains(x) implies os.contains(x) by {
            let k = choose|k: int| 0 <= k < o2.len() && o2[k] == x;
            assert(os[prev.len() + k] == x);
        }
    }
}

proof fn lemma_fold_has(ts: Seq<(SBool, Seq<SCommand>, SBool)>, j: int)
    requires
        0 <= j < ts.len(),
        triple_fold(ts) is Some,
    ensures
        calc(ts[j].1, ts[j].2) is Some,
        forall|x: SObligation| #[trigger] calc(ts[j].1, ts[j].2)->Some_0.1.contains(x)
            ==> triple_fold(ts)->Some_0.contains(x),
        triple_fold(ts)->Some_0.contains(oblig(ts[j].0, calc(ts[j].1, ts[j].2)->Some_0.0)),
    decreases ts.len(),
{
    let o = triple_fold(ts)->Some_0;
    let prev = triple_fold(ts.drop_last())->Some_0;
    let (pre, o2) = calc(ts.last().1, ts.last().2)->Some_0;
    assert(o == prev + o2 + seq![oblig(ts.last().0, pre)]);
    if j < ts.len() - 1 {
        assert(ts.drop_last()[j] == ts[j]);
        lemma_fold_has(ts.drop_last(), j);
        assert forall|x: SObligation| #[trigger] prev.contains(x) implies o.contains(x) by {
            let k = choose|k: int| 0 <= k < prev.len() && prev[k] == x;
            assert(o[k] == x);
        }
    } else {
        assert(ts[j] == ts.last());
        assert forall|x: SObligation| #[trigger] o2.contains(x) implies o.contains(x) by {
            let k = choose|k: int| 0 <= k < o2.len() && o2[k] == x;
            assert(o[prev.len() + k] == x);
        }
        assert(o[(prev.len() + o2.len()) as int] == oblig(ts.last().0, pre));
    }
}

// ------------------------------------------------------------------
// Specification: triples
// ------------------------------------------------------------------
/// The code of a block followed by the assertion of its postcondition.
pub open spec fn full_code(cs: Seq<SCommand>, q: SBool) -> Seq<SCommand> {
    cs + seq![SCommand::Noop, SCommand::ProveControl(SProveControl::Assert(q))]
}

/// One triple `{p} code {a}` for each assertion `a` among the first `k`
/// commands, with the code up to and including it.
pub open spec fn triple_list(p: SBool, cs: Seq<SCommand>, k: int) -> Seq<(SBool, Seq<SCommand>, SBool)>
    decreases k,
{
    if k <= 0 || k > cs.len() {
        seq![]
    } else {
        let t = triple_list(p, cs, k - 1);
        match cs[k - 1] {
            SCommand::ProveControl(SProveControl::Assert(a)) => t.push((p, cs.take(k), a)),
            _ => t,
        }
    }
}

pub open spec fn triples(p: SBool, cs: Seq<SCommand>, q: SBool) -> Seq<(SBool, Seq<SCommand>, SBool)> {
    triple_list(p, full_code(cs, q), full_code(cs, q).len() as int)
}

/// The obligations of a list of triples: those of the loops on the way, and
/// that the precondition gives what the code needs.
pub open spec fn triple_fold(ts: Seq<(SBool, Seq<SCommand>, SBool)>) -> Option<Seq<SObligation>>
    decreases ts.len(),
{
    if ts.len() == 0 {
        Some(seq![])
    } else {
        match triple_fold(ts.drop_last()) {
            None => None,
            Some(o) => match calc(ts.last().1, ts.last().2) {
                None => None,
                Some((pre, o2)) => Some(o + o2 + seq![oblig(ts.last().0, pre)]),
            },
        }
    }
}

proof fn lemma_calc_skip(s: Seq<SCommand>, q: SBool)
    requires
        s.len() > 0,
        s.last() is ProveControl || s.last() is Noop,
    ensures
        calc(s, q) == calc(s.drop_last(), q),
{
    assert(wp_cmd(s.last(), q) == Some((q, Seq::<SObligation>::empty())));
    match calc(s.drop_last(), q) {
        Some((p, o)) => {
            assert(Seq::<SObligation>::empty() + o =~= o);
        },
        None => {},
    }
}

proof fn lemma_triple_prefix(p: SBool, cs: Seq<SCommand>, q: SBool, k: int)
    requires
        0 <= k <= cs.len(),
    ensures
        triple_fold(triple_list(p, full_code(cs, q), k)) == triple_obls(p, cs, k),
    decreases k,
{
    let f = full_code(cs, q);
    if k > 0 {
        lemma_triple_prefix(p, cs, q, k - 1);
        assert(f[k - 1] == cs[k - 1]);
        let prev = triple_list(p, f, k - 1);
        match cs[k - 1] {
            SCommand::ProveControl(SProveControl::Assert(a)) => {
                assert(triple_list(p, f, k) == prev.push((p, f.take(k), a)));
                assert(prev.push((p, f.take(k), a)).drop_last() =~= prev);
                lemma_calc_skip(f.take(k), a);
                assert(f.take(k).drop_last() =~= cs.subrange(0, k - 1));
            },
            _ => {},
        }
    }
}

/// Going through the triples of a block gives its obligations.
pub proof fn law_triples_fold(p: SBool, cs: Seq<SCommand>, q: SBool)
    ensures
        triple_fold(triples(p, cs, q)) == check_block(p, cs, q),
{
    let f = full_code(cs, q);
    let n = cs.len() as int;
    lemma_triple_prefix(p, cs, q, n);
    assert(f[n] == SCommand::Noop);
    assert(triple_list(p, f, n + 1) == triple_list(p, f, n));
    assert(f.take(n + 2) =~= f);
    let prev = triple_list(p, f, n + 1);
    assert(f[n + 1] == SCommand::ProveControl(SProveControl::Assert(q)));
    assert(triple_list(p, f, n + 2) == prev.push((p, f, q)));
    assert(prev.push((p, f, q)).drop_last() =~= prev);
    lemma_calc_skip(f, q);
    lemma_calc_skip(f.drop_last(), q);
    assert(f.drop_last().drop_last() =~= cs);
}

/// The precondition of a list of commands `a + b` is that of `a` for the
/// precondition of `b`; the loops of `b` give their obligations first.
pub proof fn law_calc_concat(a: Seq<SCommand>, b: Seq<SCommand>, q: SBool)
    ensures
        calc(a + b, q) == (match calc(b, q) {
            None => None,
            Some((q1, o1)) => match calc(a, q1) {
                None => None,
                Some((p, o2)) => Some((p, o1 + o2)),
            },
        }),
    decreases b.len(),
{
    if b.len() == 0 {
        assert(a + b =~= a);
        match calc(a, q) {
            Some((p, o2)) => {
                assert(Seq::<SObligation>::empty() + o2 =~= o2);
            },
            None => {},
        }
    } else {
        let ab = a + b;
        assert(ab.last() == b.last());
        assert(ab.drop_last() =~= a + b.drop_last());
        match wp_cmd(b.last(), q) {
            None => {},
            Some((q1, o1)) => {
                law_calc_concat(a, b.drop_last(), q1);
                match calc(b.drop_last(), q1) {
                    None => {},
                    Some((q2, o3)) => match calc(a, q2) {
                        None => {},
                        Some((p, o2)) => {
                            assert(o1 + (o3 + o2) =~= (o1 + o3) + o2);
                        },
                    },
                }
            },
        }
    }
}

// ------------------------------------------------------------------
// Implementation: functions and programs
// ------------------------------------------------------------------
pub open spec fn opt_cmd(r: Option<Command>) -> Option<SCommand> {
    match r {
        Some(c) => Some(c@),
        None => None,
    }
}

/// The command that assigns the returned value to `return_value`.
pub fn define_return_value(output: Type, return_value: Value) -> (r: Option<Command>)
    ensures
        opt_cmd(r) == return_cmd(output@, return_value@),
{
    match output {
        Type::Reference(_) => None,
        Type::ReferenceMutable(_) => None,
        Type::Unit => Some(Command::Noop),
        _ => {
            let name = "return_value".to_string();
            proof {
                reveal_strlit("return_value");
                assert(name@ =~= return_value_name());
            }
            let var = Variable::Named(name);
            assert(var@ == SVariable::Named(return_value_name()));
            let b = Binding::Assignment(var, output, return_value, false);
            Some(Command::Binding(b))
        },
    }
}

/// The function as it is proved: see `wrapped_code`.
pub fn wrap_function(f: Function) -> (r: Option<Function>)
    ensures
        match r {
            Some(g) => wrapped_code(f@) == Some(g@.content) && g@.name == f@.name && g@.precondition
                == f@.precondition && g@.postcondition == f@.postcondition && g@.input == f@.input
                && g@.output == f@.output && g@.return_value == f@.return_value,
            None => wrapped_code(f@) is None,
        },
{
    let ghost fv = f@;
    let Function { name, content, input, output, precondition, postcondition, return_value } = f;
    let rv = copy_value(&return_value);
    let out = copy_type(&output);
    match define_return_value(out, rv) {
        None => None,
        Some(last) => {
            let mut temp: Vec<Command> = Vec::new();
            temp.push(Command::Noop);
            let mut content = content;
            temp.append(&mut content);
            let ghost lv = last@;
            temp.push(last);
            proof {
                assert(m_cmds(temp@) =~= seq![SCommand::Noop] + fv.content + seq![lv]);
            }
            Some(Function { name, content: temp, input, output, precondition, postcondition, return_value })
        },
    }
}

/// The commands from the last to the first, in the order the calculus
/// goes through them.
fn reversed_cmds(cs: &Vec<Command>) -> (r: Vec<Command>)
    ensures
        m_cmds(r@) == m_cmds(cs@).reverse(),
{
    let mut r: Vec<Command> = Vec::new();
    let mut i: usize = cs.len();
    while i > 0
        invariant
            i <= cs.len(),
            r@.len() == cs.len() - i,
            forall|k: int| 0 <= k < r@.len() ==> #[trigger] r@[k]@ == cs@[cs.len() - 1 - k]@,
        decreases i,
    {
        i = i - 1;
        r.push(copy_cmd(&cs[i]));
    }
    assert forall|k: int| 0 <= k < r@.len() implies m_cmds(r@)[k] == m_cmds(cs@).reverse()[k] by {
        assert(r@[k]@ == cs@[cs.len() - 1 - k]@);
    }
    assert(m_cmds(r@) =~= m_cmds(cs@).reverse());
    r
}

/// `{precondition} code {postcondition}`.
#[derive(Debug, PartialEq, Eq)]
pub struct ProveBlock {
    pub precondition: Bool,
    pub code: Vec<Command>,
    pub postcondition: Bool,
}

pub open spec fn triple_view(t: ProveBlock) -> (SBool, Seq<SCommand>, SBool) {
    (t.precondition@, m_cmds(t.code@), t.postcondition@)
}

pub fn prove_block(precondition: Bool, code: Vec<Command>, postcondition: Bool) -> (r: ProveBlock)
    ensures
        r.precondition == precondition,
        r.code == code,
        r.postcondition == postcondition,
{
    ProveBlock { precondition, code, postcondition }
}

impl ProveBlock {
    /// One triple for each assertion of the code, and one for the
    /// postcondition, which is asserted after the code.
    pub fn create_triples(&self) -> (r: Vec<ProveBlock>)
        ensures
            r@.len() == triples(self.precondition@, m_cmds(self.code@), self.postcondition@).len(),
            forall|i: int| 0 <= i < r@.len() ==> #[trigger] triple_view(r@[i])
                == triples(self.precondition@, m_cmds(self.code@), self.postcondition@)[i],
    {
        let ghost p = self.precondition@;
        let ghost f = full_code(m_cmds(self.code@), self.postcondition@);
        let mut commands = copy_cmds(&self.code);
        commands.push(Command::Noop);
        let last = Command::ProveControl(ProveControl::Assert(copy_bool(&self.postcondition)));
        assert(last@ == SCommand::ProveControl(SProveControl::Assert(self.postcondition@)));
        commands.push(last);
        assert(m_cmds(commands@) =~= f);
        let mut res: Vec<ProveBlock> = Vec::new();
        let mut code_till_now: Vec<Command> = Vec::new();
        let mut k: usize = 0;
        assert(m_cmds(code_till_now@) =~= f.take(0));
        while k < commands.len()
            invariant
                k <= commands.len(),
                m_cmds(commands@) == f,
                p == self.precondition@,
                m_cmds(code_till_now@) == f.take(k as int),
                res@.len() == triple_list(p, f, k as int).len(),
                forall|i: int| 0 <= i < res@.len() ==> #[trigger] triple_view(res@[i])
                    == triple_list(p, f, k as int)[i],
            decreases commands.len() - k,
        {
            let c = copy_cmd(&commands[k]);
            assert(f[k as int] == m_cmd(commands@[k as int]));
            assert(c@ == f[k as int]);
            let ghost old_code = code_till_now@;
            code_till_now.push(c);
            assert(code_till_now@ == old_code.push(c));
            assert(m_cmds(code_till_now@) =~= m_cmds(old_code).push(c@));
            assert(f.take(k + 1) =~= f.take(k as int).push(f[k as int]));
            match &commands[k] {
                Command::ProveControl(ProveControl::Assert(a)) => {
                    let t = ProveBlock {
                        precondition: copy_bool(&self.precondition),
                        code: copy_cmds(&code_till_now),
                        postcondition: copy_bool(a),
                    };
                    res.push(t);
                },
                _ => {},
            }
            k = k + 1;
        }
        res
    }

    /// The precondition that the code needs for the postcondition, with the
    /// obligations of its loops; the block returned has it as postcondition.
    pub fn calculate(&self) -> (r: Option<(ProveBlock, Vec<Obligation>)>)
        ensures
            match r {
                Some((b, o)) => calc(m_cmds(self.code@), self.postcondition@) == Some(
                    (b.postcondition@, m_obls(o@)),
                ) && b.precondition@ == self.precondition@ && m_cmds(b.code@) == m_cmds(self.code@).reverse(),
                None => calc(m_cmds(self.code@), self.postcondition@) is None,
            },
    {
        assert(m_cmds(self.code@).take(self.code@.len() as int) =~= m_cmds(self.code@));
        match calc_prefix(&self.code, self.code.len(), copy_bool(&self.postcondition)) {
            None => None,
            Some((pre, o)) => Some(
                (
                    ProveBlock {
                        precondition: copy_bool(&self.precondition),
                        code: reversed_cmds(&self.code),
                        postcondition: pre,
                    },
                    o,
                ),
            ),
        }
    }
}

/// The selected functions of `fs` meet their annotations: each of their
/// obligations can be handed to the solver and holds.
pub open spec fn correct(fs: Seq<SFunction>, nm: Seq<Seq<char>>) -> bool {
    match program_obligations(fs, nm) {
        Some(os) => all_ok(os),
        None => false,
    }
}

proof fn lemma_obligations_concat(a: Seq<SFunction>, b: Seq<SFunction>, nm: Seq<Seq<char>>)
    ensures
        program_obligations(a + b, nm) == (match (program_obligations(a, nm), program_obligations(b, nm)) {
            (Some(x), Some(y)) => Some(x + y),
            _ => None,
        }),
    decreases b.len(),
{
    if b.len() == 0 {
        assert(a + b =~= a);
        match program_obligations(a, nm) {
            Some(x) => {
                assert(x + Seq::<SObligation>::empty() =~= x);
            },
            None => {},
        }
    } else {
        assert((a + b).drop_last() =~= a + b.drop_last());
        assert((a + b).last() == b.last());
        lemma_obligations_concat(a, b.drop_last(), nm);
        match (program_obligations(a, nm), program_obligations(b.drop_last(), nm)) {
            (Some(x), Some(y)) => {
                if selected(b.last().name, nm) {
                    match function_obligations(b.last()) {
                        Some(z) => {
                            assert(x + y + z =~= x + (y + z));
                        },
                        None => {},
                    }
                }
            },
            _ => {},
        }
    }
}

proof fn lemma_all_ok_concat(x: Seq<SObligation>, y: Seq<SObligation>)
    ensures
        all_ok(x + y) == (all_ok(x) && all_ok(y)),
{
    if all_ok(x + y) {
        assert forall|i: int| 0 <= i < x.len() implies #[trigger] good(x[i]) by {
            assert((x + y)[i] == x[i]);
        }
        assert forall|i: int| 0 <= i < y.len() implies #[trigger] good(y[i]) by {
            assert((x + y)[x.len() + i] == y[i]);
        }
    }
    if all_ok(x) && all_ok(y) {
        assert forall|i: int| 0 <= i < (x + y).len() implies #[trigger] good((x + y)[i]) by {
            if i < x.len() {
                assert((x + y)[i] == x[i]);
            } else {
                assert((x + y)[i] == y[i - x.len()]);
            }
        }
    }
}

/// The functions of a program are correct each on its own: the functions
/// `a` then `b` are correct exactly where `a` is and `b` is.
pub proof fn law_correct_concat(a: Seq<SFunction>, b: Seq<SFunction>, nm: Seq<Seq<char>>)
    ensures
        correct(a + b, nm) == (correct(a, nm) && correct(b, nm)),
{
    lemma_obligations_concat(a, b, nm);
    match (program_obligations(a, nm), program_obligations(b, nm)) {
        (Some(x), Some(y)) => lemma_all_ok_concat(x, y),
        _ => {},
    }
}

/// The functions that a name selects.
pub open spec fn selected_functions(fs: Seq<SFunction>, nm: Seq<Seq<char>>) -> Seq<SFunction> {
    fs.filter(|f: SFunction| selected(f.name, nm))
}

proof fn lemma_obligations_selected(fs: Seq<SFunction>, nm: Seq<Seq<char>>)
    ensures
        program_obligations(fs, nm) == program_obligations(selected_functions(fs, nm), Seq::empty()),
    decreases fs.len(),
{
    reveal(Seq::filter);
    if fs.len() == 0 {
        assert(selected_functions(fs, nm) =~= fs);
    } else {
        lemma_obligations_selected(fs.drop_last(), nm);
        let sf = selected_functions(fs, nm);
        let prev = selected_functions(fs.drop_last(), nm);
        if selected(fs.last().name, nm) {
            assert(sf == prev.push(fs.last()));
            assert(sf.drop_last() =~= prev);
            assert(selected(sf.last().name, Seq::<Seq<char>>::empty()));
        } else {
            assert(sf == prev);
        }
    }
}

/// Naming the functions to prove asks for what proving the program made
/// of those functions alone, with no name given, asks for.
pub proof fn law_correct_selected(fs: Seq<SFunction>, nm: Seq<Seq<char>>)
    ensures
        correct(fs, nm) == correct(selected_functions(fs, nm), Seq::empty()),
{
    lemma_obligations_selected(fs, nm);
}

/// Proves one function: `true` only where every obligation of its wrapped
/// body could be handed to the solver and the solver showed it.
#[verifier::loop_isolation(false)]
fn prove_function(f: &Function) -> (r: bool)
    ensures
        r ==> match function_obligations(f@) {
            Some(o) => all_ok(o),
            None => false,
        },
{
    let w = match wrap_function(copy_func(f)) {
        Some(w) => w,
        None => {
            return false;
        },
    };
    let ghost wv = w@;
    let ghost fo = function_obligations(f@);
    proof {
        law_triples_fold(wv.precondition, wv.content, wv.postcondition);
    }
    let block = prove_block(w.precondition, w.content, w.postcondition);
    let ts = block.create_triples();
    let ghost tl = triples(wv.precondition, wv.content, wv.postcondition);
    assert(fo == triple_fold(tl));
    let ghost mut facc: Seq<SObligation> = seq![];
    let mut j: usize = 0;
    assert(tl.take(0) =~= Seq::<(SBool, Seq<SCommand>, SBool)>::empty());
    while j < ts.len()
        invariant
            j <= ts.len(),
            ts@.len() == tl.len(),
            forall|m: int| 0 <= m < ts@.len() ==> #[trigger] triple_view(ts@[m]) == tl[m],
            triple_fold(tl.take(j as int)) == Some(facc),
            all_ok(facc),
            fo == triple_fold(tl),
        decreases ts.len() - j,
    {
        let t = &ts[j];
        assert(triple_view(ts@[j as int]) == tl[j as int]);
        assert(tl.take(j + 1).drop_last() =~= tl.take(j as int));
        assert(tl.take(j + 1).last() == tl[j as int]);
        proof {
            if fo is Some {
                lemma_fold_has(tl, j as int);
            }
        }
        match t.calculate() {
            None => {
                return false;
            },
            Some((tb, obls)) => {
                let mut k: usize = 0;
                while k < obls.len()
                    invariant
                        k <= obls.len(),
                        forall|m: int| 0 <= m < k ==> #[trigger] good(obls@[m]@),
                    decreases obls.len() - k,
                {
                    if !check_obligation(&obls[k]) {
                        return false;
                    }
                    k = k + 1;
                }
                let last = Obligation { premise: copy_bool(&t.precondition), goal: tb.postcondition };
                if !check_obligation(&last) {
                    return false;
                }
                proof {
                    let om = m_obls(obls@);
                    assert forall|m: int| 0 <= m < om.len() implies #[trigger] good(om[m]) by {
                        assert(om[m] == obls@[m]@);
                    }
                    let nf = facc + om + seq![last@];
                    assert forall|m: int| 0 <= m < nf.len() implies #[trigger] good(nf[m]) by {
                        if m < facc.len() {
                            assert(nf[m] == facc[m]);
                        } else if m < facc.len() + om.len() {
                            assert(nf[m] == om[m - facc.len()]);
                        } else {
                            assert(nf[m] == last@);
                        }
                    }
                    facc = nf;
                }
            },
        }
        j = j + 1;
    }
    assert(tl.take(j as int) =~= tl);
    true
}

/// Proves the program: each selected function (all of them where no name
/// is given) must meet its postcondition and its assertions.  The result
/// is `true` only where every obligation could be handed to the solver and
/// the solver showed it, so that the selected functions are correct; a
/// construct that is not supported, or a formula the solver cannot take,
/// gives `false`, and so does an obligation on which the solver gives up.
pub fn prove(input: Program, funcs_to_prove: Vec<String>) -> (r: bool)
    ensures
        r ==> correct(input@.content, m_strs(funcs_to_prove@)),
        program_obligations(input@.content, m_strs(funcs_to_prove@)) is None ==> !r,
        (forall|i: int| 0 <= i < input@.content.len() ==> !#[trigger] selected(input@.content[i].name, m_strs(funcs_to_prove@)))
            ==> r,
{
    let ghost fs = input@.content;
    let ghost nm = m_strs(funcs_to_prove@);
    let ghost mut acc: Seq<SObligation> = seq![];
    let mut i: usize = 0;
    assert(fs.take(0) =~= Seq::<SFunction>::empty());
    while i < input.content.len()
        invariant
            i <= input.content.len(),
            fs == input@.content,
            fs.len() == input.content.len(),
            nm == m_strs(funcs_to_prove@),
            program_obligations(fs.take(i as int), nm) == Some(acc),
            all_ok(acc),
            (forall|k: int| 0 <= k < i ==> !#[trigger] selected(fs[k].name, nm)) ==> acc.len() == 0,
        decreases input.content.len() - i,
    {
        let f = &input.content[i];
        assert(fs[i as int] == f@);
        assert(fs.take(i + 1).drop_last() =~= fs.take(i as int));
        assert(fs.take(i + 1).last() == f@);
        let sel = funcs_to_prove.len() == 0 || contains_string(&funcs_to_prove, &f.name);
        if sel {
            assert(selected(fs[i as int].name, nm));
            if !prove_function(f) {
                return false;
            }
            proof {
                let o = function_obligations(fs[i as int])->Some_0;
                let na = acc + o;
                assert forall|m: int| 0 <= m < na.len() implies #[trigger] good(na[m]) by {
                    if m < acc.len() {
                        assert(na[m] == acc[m]);
                    } else {
                        assert(na[m] == o[m - acc.len()]);
                    }
                }
                acc = na;
            }
        } else {
            assert(!selected(fs[i as int].name, nm));
        }
        i = i + 1;
    }
    assert(fs.take(i as int) =~= fs);
    true
}

} // verus!
