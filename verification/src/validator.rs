//! Checks that a parsed program is fit for proving: no name is declared
//! twice, no reserved name is declared, and the annotations only use names
//! that are defined.
use vstd::prelude::*;
use crate::ast::{
    Binding, Block, Bool, Command, Expr, Function, Program, ProveControl, SBinding, SBlock, SBool,
    SCommand, SExpr, SFunction, SProgram, SProveControl, SValue, SVariable, Value, Variable, m_cmds,
    m_func,
};
use crate::copying::copy_string;
use crate::equality::eq_string;

verus! {

broadcast use vstd::string::group_string_axioms;

/// The names held by a list of strings.
pub open spec fn m_strs(v: Seq<String>) -> Seq<Seq<char>> {
    v.map_values(|s: String| s@)
}

/// The name that a declaration of `v` defines, if any.
/// Adds the name of `v` to the definitions, when `v` is a plain name.
pub open spec fn defs_push(defs: Seq<Seq<char>>, v: SVariable) -> Seq<Seq<char>> {
    match v {
        SVariable::Named(a) => defs.push(a),
        _ => defs,
    }
}

pub open spec fn old_suffix() -> Seq<char> {
    seq!['\'', 'o', 'l', 'd']
}

pub open spec fn ends_with_old(s: Seq<char>) -> bool {
    s.len() >= 4 && s.subrange(s.len() - 4, s.len() as int) == old_suffix()
}

/// The name of the value that a function returns, reserved for the prover.
pub open spec fn return_value_name() -> Seq<char> {
    seq!['r', 'e', 't', 'u', 'r', 'n', '_', 'v', 'a', 'l', 'u', 'e']
}

// ------------------------------------------------------------------
// Names used in the annotations must be defined.
// ------------------------------------------------------------------
/// A variable used in an annotation is defined (the index of an array or
/// tuple element is not looked at, as the name alone is checked).
pub open spec fn defined_var(v: SVariable, defs: Seq<Seq<char>>) -> bool {
    match v {
        SVariable::Named(a) => defs.contains(a),
        SVariable::ArrayElem(a, _) => defs.contains(a),
        SVariable::TupleElem(a, _) => defs.contains(a),
        SVariable::Empty => true,
    }
}

pub open spec fn defined_values(s: Seq<SValue>, defs: Seq<Seq<char>>, funcs: Seq<Seq<char>>) -> bool
    decreases s,
{
    if s.len() == 0 {
        true
    } else {
        defined_values(s.drop_last(), defs, funcs) && defined_value(s.last(), defs, funcs)
    }
}

pub open spec fn defined_value(v: SValue, defs: Seq<Seq<char>>, funcs: Seq<Seq<char>>) -> bool
    decreases v,
{
    match v {
        SValue::Expr(e) => defined_expr(e, defs, funcs),
        SValue::Bool(b) => defined_bool(b, defs, funcs),
        SValue::Variable(x) => defined_var(x, defs),
        SValue::Tuple(s) => defined_values(s, defs, funcs),
        SValue::Array(s) => defined_values(s, defs, funcs),
        SValue::FunctionCall(n, s) => funcs.contains(n) && defined_values(s, defs, funcs),
        SValue::Dereference(x) => defined_value(*x, defs, funcs),
        SValue::Reference(x) => defined_value(*x, defs, funcs),
        SValue::ReferenceMutable(x) => defined_value(*x, defs, funcs),
        SValue::Unit => true,
        SValue::Unknown => true,
        SValue::Ternary(c, a, b) => defined_bool(*c, defs, funcs) && defined_value(*a, defs, funcs)
            && defined_value(*b, defs, funcs),
    }
}

pub open spec fn defined_expr(e: SExpr, defs: Seq<Seq<char>>, funcs: Seq<Seq<char>>) -> bool
    decreases e,
{
    match e {
        SExpr::Number(_) => true,
        SExpr::Value(v) => defined_value(*v, defs, funcs),
        SExpr::Op(a, _, b) => defined_expr(*a, defs, funcs) && defined_expr(*b, defs, funcs),
    }
}

/// A quantifier defines its variable inside its body.
pub open spec fn defined_bool(b: SBool, defs: Seq<Seq<char>>, funcs: Seq<Seq<char>>) -> bool
    decreases b,
{
    match b {
        SBool::And(x, y) => defined_bool(*x, defs, funcs) && defined_bool(*y, defs, funcs),
        SBool::Or(x, y) => defined_bool(*x, defs, funcs) && defined_bool(*y, defs, funcs),
        SBool::Not(x) => defined_bool(*x, defs, funcs),
        SBool::Value(v) => defined_value(*v, defs, funcs),
        SBool::True => true,
        SBool::False => true,
        SBool::Equal(x, y) => defined_expr(x, defs, funcs) && defined_expr(y, defs, funcs),
        SBool::GreaterEqual(x, y) => defined_expr(x, defs, funcs) && defined_expr(y, defs, funcs),
        SBool::LowerEqual(x, y) => defined_expr(x, defs, funcs) && defined_expr(y, defs, funcs),
        SBool::GreaterThan(x, y) => defined_expr(x, defs, funcs) && defined_expr(y, defs, funcs),
        SBool::LowerThan(x, y) => defined_expr(x, defs, funcs) && defined_expr(y, defs, funcs),
        SBool::ForAll(v, x) => defined_bool(*x, defs_push(defs, v), funcs),
        SBool::Exists(v, x) => defined_bool(*x, defs_push(defs, v), funcs),
    }
}

/// The definitions that a binding adds.
pub open spec fn binding_defs(b: SBinding, defs: Seq<Seq<char>>) -> Seq<Seq<char>> {
    match b {
        SBinding::Declaration(n, _, _) => defs_push(defs, n),
        SBinding::Assignment(n, _, _, _) => defs_push(defs, n),
        SBinding::Tuple(s) => tuple_defs(s, defs),
    }
}

/// The definitions that the elements of a tuple binding add.
pub open spec fn tuple_defs(s: Seq<SCommand>, defs: Seq<Seq<char>>) -> Seq<Seq<char>>
    decreases s.len(),
{
    if s.len() == 0 {
        defs
    } else {
        let d = match s[0] {
            SCommand::Binding(SBinding::Declaration(n, _, _)) => defs_push(defs, n),
            SCommand::Binding(SBinding::Assignment(n, _, _, _)) => defs_push(defs, n),
            _ => defs,
        };
        tuple_defs(s.drop_first(), d)
    }
}

/// What checking one command gives: whether it passed, and the definitions after it.
pub open spec fn undefined_cmd(c: SCommand, defs: Seq<Seq<char>>, funcs: Seq<Seq<char>>) -> (bool, Seq<Seq<char>>)
    decreases c,
{
    match c {
        SCommand::ProveControl(SProveControl::Assert(a)) => (defined_bool(a, defs, funcs), defs),
        SCommand::ProveControl(SProveControl::Assume(a)) => (defined_bool(a, defs, funcs), defs),
        SCommand::Binding(b) => (true, binding_defs(b, defs)),
        SCommand::Block(SBlock::If(_, bodies, el)) => (
            undefined_bodies(bodies, defs, funcs) && undefined_cmds(el, defs, funcs).0,
            defs,
        ),
        SCommand::Block(SBlock::ForRange(_, _, _, body, inv)) => (
            undefined_cmds(body, defs, funcs).0 && defined_bool(inv, defs, funcs),
            defs,
        ),
        SCommand::Block(SBlock::While(_, body, inv, _)) => (
            undefined_cmds(body, defs, funcs).0 && defined_bool(inv, defs, funcs),
            defs,
        ),
        _ => (true, defs),
    }
}

pub open spec fn undefined_bodies(s: Seq<Seq<SCommand>>, defs: Seq<Seq<char>>, funcs: Seq<Seq<char>>) -> bool
    decreases s,
{
    if s.len() == 0 {
        true
    } else {
        undefined_cmds(s[0], defs, funcs).0 && undefined_bodies(s.drop_first(), defs, funcs)
    }
}

/// Checks the commands in order, stopping at the first that fails.
pub open spec fn undefined_cmds(s: Seq<SCommand>, defs: Seq<Seq<char>>, funcs: Seq<Seq<char>>) -> (bool, Seq<Seq<char>>)
    decreases s,
{
    if s.len() == 0 {
        (true, defs)
    } else {
        let (ok, d) = undefined_cmd(s[0], defs, funcs);
        if !ok {
            (false, d)
        } else {
            undefined_cmds(s.drop_first(), d, funcs)
        }
    }
}

// ------------------------------------------------------------------
// Executable checks for defined names.
// ------------------------------------------------------------------
pub fn contains_string(defs: &Vec<String>, n: &String) -> (r: bool)
    ensures
        r == m_strs(defs@).contains(n@),
{
    let mut i: usize = 0;
    while i < defs.len()
        invariant
            i <= defs.len(),
            forall|j: int| 0 <= j < i ==> defs@[j]@ != n@,
        decreases defs.len() - i,
    {
        if eq_string(&defs[i], n) {
            proof {
                assert(m_strs(defs@)[i as int] == n@);
            }
            return true;
        }
        i = i + 1;
    }
    proof {
        if m_strs(defs@).contains(n@) {
            let k = choose|k: int| 0 <= k < m_strs(defs@).len() && m_strs(defs@)[k] == n@;
            assert(defs@[k]@ == n@);
        }
    }
    false
}

pub fn copy_strings(v: &Vec<String>) -> (r: Vec<String>)
    ensures
        m_strs(r@) == m_strs(v@),
{
    let mut r: Vec<String> = Vec::new();
    let mut i: usize = 0;
    while i < v.len()
        invariant
            i <= v.len(),
            m_strs(r@) == m_strs(v@.take(i as int)),
        decreases v.len() - i,
    {
        r.push(copy_string(&v[i]));
        proof {
            assert(m_strs(v@.take(i + 1)) =~= m_strs(v@.take(i as int)).push(v@[i as int]@));
            assert(m_strs(r@) =~= m_strs(v@.take(i + 1)));
        }
        i = i + 1;
    }
    proof {
        assert(v@.take(v@.len() as int) =~= v@);
    }
    r
}

/// Adds the name of `val` to the definitions when it is a plain name.
pub fn def_push(definitions: &mut Vec<String>, val: &Variable)
    ensures
        m_strs(final(definitions)@) == defs_push(m_strs(old(definitions)@), val@),
{
    match val {
        Variable::Named(a) => {
            definitions.push(copy_string(a));
            proof {
                assert(m_strs(definitions@) =~= m_strs(old(definitions)@).push(a@));
            }
        },
        _ => {},
    }
}

pub fn names_defined_var(v: &Variable, defs: &Vec<String>) -> (r: bool)
    ensures
        r == defined_var(v@, m_strs(defs@)),
{
    match v {
        Variable::Named(a) => contains_string(defs, a),
        Variable::ArrayElem(a, _) => contains_string(defs, a),
        Variable::TupleElem(a, _) => contains_string(defs, a),
        Variable::Empty => true,
    }
}

pub fn names_defined_values(vs: &Vec<Value>, defs: &Vec<String>, funcs: &Vec<String>) -> (r: bool)
    ensures
        r == defined_values(vs@.map_values(|x: Value| x@), m_strs(defs@), m_strs(funcs@)),
    decreases vs,
{
    let ghost sv = vs@.map_values(|x: Value| x@);
    let mut i: usize = 0;
    while i < vs.len()
        invariant
            i <= vs.len(),
            sv == vs@.map_values(|x: Value| x@),
            defined_values(sv.take(i as int), m_strs(defs@), m_strs(funcs@)),
        decreases vs.len() - i,
    {
        assert(decreases_to!(vs => vs@[i as int]));
        let ok = names_defined_value(&vs[i], defs, funcs);
        proof {
            assert(sv.take(i + 1).drop_last() =~= sv.take(i as int));
        }
        if !ok {
            proof {
                lemma_defined_values_prefix(sv, i as int + 1, m_strs(defs@), m_strs(funcs@));
            }
            return false;
        }
        i = i + 1;
    }
    proof {
        assert(sv.take(vs@.len() as int) =~= sv);
    }
    true
}

/// Once a prefix fails, the whole sequence fails.
pub proof fn lemma_defined_values_prefix(s: Seq<SValue>, k: int, defs: Seq<Seq<char>>, funcs: Seq<Seq<char>>)
    requires
        0 <= k <= s.len(),
        !defined_values(s.take(k), defs, funcs),
    ensures
        !defined_values(s, defs, funcs),
    decreases s.len() - k,
{
    if k < s.len() {
        assert(s.take(k + 1).drop_last() =~= s.take(k));
        lemma_defined_values_prefix(s, k + 1, defs, funcs);
    } else {
        assert(s.take(k) =~= s);
    }
}

pub fn names_defined_value(v: &Value, defs: &Vec<String>, funcs: &Vec<String>) -> (r: bool)
    ensures
        r == defined_value(v@, m_strs(defs@), m_strs(funcs@)),
    decreases v,
{
    match v {
        Value::Expr(e) => names_defined_expr(e, defs, funcs),
        Value::Bool(b) => names_defined_bool(b, defs, funcs),
        Value::Variable(x) => names_defined_var(x, defs),
        Value::Tuple(vs) => {
            proof {
                assert(v@->Tuple_0 =~= vs@.map_values(|x: Value| x@));
            }
            names_defined_values(vs, defs, funcs)
        },
        Value::Array(vs) => {
            proof {
                assert(v@->Array_0 =~= vs@.map_values(|x: Value| x@));
            }
            names_defined_values(vs, defs, funcs)
        },
        Value::FunctionCall(n, vs) => {
            proof {
                assert(v@->FunctionCall_1 =~= vs@.map_values(|x: Value| x@));
            }
            contains_string(funcs, n) && names_defined_values(vs, defs, funcs)
        },
        Value::Dereference(x) => names_defined_value(x, defs, funcs),
        Value::Reference(x) => names_defined_value(x, defs, funcs),
        Value::ReferenceMutable(x) => names_defined_value(x, defs, funcs),
        Value::Unit => true,
        Value::Unknown => true,
        Value::Ternary(c, a, b) => names_defined_bool(c, defs, funcs) && names_defined_value(a, defs, funcs)
            && names_defined_value(b, defs, funcs),
    }
}

pub fn names_defined_expr(e: &Expr, defs: &Vec<String>, funcs: &Vec<String>) -> (r: bool)
    ensures
        r == defined_expr(e@, m_strs(defs@), m_strs(funcs@)),
    decreases e,
{
    match e {
        Expr::Number(_) => true,
        Expr::Value(v) => names_defined_value(v, defs, funcs),
        Expr::Op(a, _, b) => names_defined_expr(a, defs, funcs) && names_defined_expr(b, defs, funcs),
    }
}

pub fn names_defined_bool(b: &Bool, defs: &Vec<String>, funcs: &Vec<String>) -> (r: bool)
    ensures
        r == defined_bool(b@, m_strs(defs@), m_strs(funcs@)),
    decreases b,
{
    match b {
        Bool::And(x, y) => names_defined_bool(x, defs, funcs) && names_defined_bool(y, defs, funcs),
        Bool::Or(x, y) => names_defined_bool(x, defs, funcs) && names_defined_bool(y, defs, funcs),
        Bool::Not(x) => names_defined_bool(x, defs, funcs),
        Bool::Value(v) => names_defined_value(v, defs, funcs),
        Bool::True => true,
        Bool::False => true,
        Bool::Equal(x, y) => names_defined_expr(x, defs, funcs) && names_defined_expr(y, defs, funcs),
        Bool::GreaterEqual(x, y) => names_defined_expr(x, defs, funcs) && names_defined_expr(y, defs, funcs),
        Bool::LowerEqual(x, y) => names_defined_expr(x, defs, funcs) && names_defined_expr(y, defs, funcs),
        Bool::GreaterThan(x, y) => names_defined_expr(x, defs, funcs) && names_defined_expr(y, defs, funcs),
        Bool::LowerThan(x, y) => names_defined_expr(x, defs, funcs) && names_defined_expr(y, defs, funcs),
        Bool::ForAll(v, x) => {
            let mut inner = copy_strings(defs);
            def_push(&mut inner, v);
            names_defined_bool(x, &inner, funcs)
        },
        Bool::Exists(v, x) => {
            let mut inner = copy_strings(defs);
            def_push(&mut inner, v);
            names_defined_bool(x, &inner, funcs)
        },
    }
}

/// Adds the definitions that a binding makes.
pub fn binding_def_push(b: &Binding, defs: &mut Vec<String>)
    ensures
        m_strs(final(defs)@) == binding_defs(b@, m_strs(old(defs)@)),
{
    match b {
        Binding::Declaration(n, _, _) => def_push(defs, n),
        Binding::Assignment(n, _, _, _) => def_push(defs, n),
        Binding::Tuple(vec) => {
            let ghost sv = m_cmds(vec@);
            let mut i: usize = 0;
            proof {
                assert(sv.skip(0) =~= sv);
            }
            while i < vec.len()
                invariant
                    i <= vec.len(),
                    sv == m_cmds(vec@),
                    tuple_defs(sv, m_strs(old(defs)@)) == tuple_defs(sv.skip(i as int), m_strs(defs@)),
                decreases vec.len() - i,
            {
                proof {
                    assert(sv.skip(i as int).drop_first() =~= sv.skip(i + 1));
                    assert(sv.skip(i as int)[0] == sv[i as int]);
                }
                match &vec[i] {
                    Command::Binding(Binding::Declaration(n, _, _)) => def_push(defs, n),
                    Command::Binding(Binding::Assignment(n, _, _, _)) => def_push(defs, n),
                    _ => {},
                }
                i = i + 1;
            }
            proof {
                assert(b@->Tuple_0 =~= sv);
                assert(sv.skip(vec@.len() as int) =~= Seq::<SCommand>::empty());
            }
        },
    }
}

fn undefined_check_cmd(c: &Command, defs: &mut Vec<String>, funcs: &Vec<String>) -> (r: bool)
    ensures
        (r, m_strs(final(defs)@)) == undefined_cmd(c@, m_strs(old(defs)@), m_strs(funcs@)),
    decreases c,
{
    match c {
        Command::ProveControl(ProveControl::Assert(a)) => names_defined_bool(a, defs, funcs),
        Command::ProveControl(ProveControl::Assume(a)) => names_defined_bool(a, defs, funcs),
        Command::Binding(b) => {
            binding_def_push(b, defs);
            true
        },
        Command::Block(Block::If(_, bodies, el)) => {
            let ghost sb = c@->Block_0->If_1;
            let mut i: usize = 0;
            proof {
                assert(sb.skip(0) =~= sb);
            }
            #[verifier::loop_isolation(false)]
            while i < bodies.len()
                invariant
                    i <= bodies.len(),
                    defs@ == old(defs)@,
                    undefined_bodies(sb, m_strs(defs@), m_strs(funcs@)) == undefined_bodies(sb.skip(i as int), m_strs(defs@), m_strs(funcs@)),
                decreases bodies.len() - i,
            {
                assert(decreases_to!(c => bodies@[i as int]));
                proof {
                    assert(sb.skip(i as int).drop_first() =~= sb.skip(i + 1));
                    assert(sb.skip(i as int)[0] =~= m_cmds(bodies@[i as int]@));
                }
                let mut state = copy_strings(defs);
                if !undefined_check_cmds(&bodies[i], &mut state, funcs) {
                    return false;
                }
                i = i + 1;
            }
            proof {
                assert(sb.skip(bodies@.len() as int) =~= Seq::<Seq<SCommand>>::empty());
                assert(c@->Block_0->If_2 =~= m_cmds(el@));
            }
            let mut state = copy_strings(defs);
            undefined_check_cmds(el, &mut state, funcs)
        },
        Command::Block(Block::ForRange(_, _, _, body, inv)) => {
            let mut state = copy_strings(defs);
            proof {
                assert(c@->Block_0->ForRange_3 =~= m_cmds(body@));
            }
            if !undefined_check_cmds(body, &mut state, funcs) {
                return false;
            }
            names_defined_bool(inv, defs, funcs)
        },
        Command::Block(Block::While(_, body, inv, _)) => {
            let mut state = copy_strings(defs);
            proof {
                assert(c@->Block_0->While_1 =~= m_cmds(body@));
            }
            if !undefined_check_cmds(body, &mut state, funcs) {
                return false;
            }
            names_defined_bool(inv, defs, funcs)
        },
        _ => true,
    }
}

fn undefined_check_cmds(cs: &Vec<Command>, defs: &mut Vec<String>, funcs: &Vec<String>) -> (r: bool)
    ensures
        (r, m_strs(final(defs)@)) == undefined_cmds(m_cmds(cs@), m_strs(old(defs)@), m_strs(funcs@)),
    decreases cs,
{
    let ghost sv = m_cmds(cs@);
    let mut i: usize = 0;
    proof {
        assert(sv.skip(0) =~= sv);
    }
    while i < cs.len()
        invariant
            i <= cs.len(),
            sv == m_cmds(cs@),
            undefined_cmds(sv, m_strs(old(defs)@), m_strs(funcs@)) == undefined_cmds(sv.skip(i as int), m_strs(defs@), m_strs(funcs@)),
        decreases cs.len() - i,
    {
        assert(decreases_to!(cs => cs@[i as int]));
        proof {
            assert(sv.skip(i as int).drop_first() =~= sv.skip(i + 1));
            assert(sv.skip(i as int)[0] == cs@[i as int]@);
        }
        if !undefined_check_cmd(&cs[i], defs, funcs) {
            return false;
        }
        i = i + 1;
    }
    proof {
        assert(sv.skip(cs@.len() as int) =~= Seq::<SCommand>::empty());
    }
    true
}

/// Checks, in order, that the annotations of `content` use only defined
/// names; `definitions` gets the names that the commands define.
pub fn no_undefined_logic(content: Vec<Command>, definitions: &mut Vec<String>, functions: &Vec<String>) -> (r: bool)
    ensures
        (r, m_strs(final(definitions)@)) == undefined_cmds(m_cmds(content@), m_strs(old(definitions)@), m_strs(functions@)),
{
    undefined_check_cmds(&content, definitions, functions)
}

// ------------------------------------------------------------------
// Reserved names may not be declared.
// ------------------------------------------------------------------
/// `return_value` and names ending in `'old` are reserved for the annotations.
pub open spec fn forbidden_ok(v: SVariable) -> bool {
    match v {
        SVariable::Named(a) => a != return_value_name() && !ends_with_old(a),
        _ => true,
    }
}

pub open spec fn forbidden_tuple(s: Seq<SCommand>) -> bool
    decreases s.len(),
{
    if s.len() == 0 {
        true
    } else {
        (match s[0] {
            SCommand::Binding(SBinding::Declaration(n, _, _)) => forbidden_ok(n),
            SCommand::Binding(SBinding::Assignment(n, _, _, _)) => forbidden_ok(n),
            _ => true,
        }) && forbidden_tuple(s.drop_first())
    }
}

pub open spec fn forbidden_cmd(c: SCommand) -> bool
    decreases c,
{
    match c {
        SCommand::Binding(SBinding::Declaration(n, _, _)) => forbidden_ok(n),
        SCommand::Binding(SBinding::Assignment(n, _, _, _)) => forbidden_ok(n),
        SCommand::Binding(SBinding::Tuple(s)) => forbidden_tuple(s),
        SCommand::Block(SBlock::If(_, bodies, el)) => forbidden_bodies(bodies) && forbidden_cmds(el),
        SCommand::Block(SBlock::ForRange(it, _, _, body, _)) => forbidden_ok(it) && forbidden_cmds(body),
        SCommand::Block(SBlock::While(_, body, _, _)) => forbidden_cmds(body),
        _ => true,
    }
}

pub open spec fn forbidden_bodies(s: Seq<Seq<SCommand>>) -> bool
    decreases s,
{
    if s.len() == 0 {
        true
    } else {
        forbidden_cmds(s[0]) && forbidden_bodies(s.drop_first())
    }
}

pub open spec fn forbidden_cmds(s: Seq<SCommand>) -> bool
    decreases s,
{
    if s.len() == 0 {
        true
    } else {
        forbidden_cmd(s[0]) && forbidden_cmds(s.drop_first())
    }
}

/// Whether `a` ends with `'old`.
pub fn ends_with_old_exec(a: &String) -> (r: bool)
    ensures
        r == ends_with_old(a@),
{
    let n = a.as_str().unicode_len();
    if n < 4 {
        return false;
    }
    let tail = a.as_str().substring_char(n - 4, n).to_string();
    let suffix = "'old".to_string();
    proof {
        reveal_strlit("'old");
        assert(suffix@ =~= old_suffix());
    }
    eq_string(&tail, &suffix)
}

/// A binding may not declare `return_value` nor a name ending in `'old`.
pub fn no_forbidden_decs_check(val: Variable) -> (r: bool)
    ensures
        r == forbidden_ok(val@),
{
    match &val {
        Variable::Named(a) => {
            let reserved = "return_value".to_string();
            proof {
                reveal_strlit("return_value");
                assert(reserved@ =~= return_value_name());
            }
            if !eq_string(a, &reserved) {
                !ends_with_old_exec(a)
            } else {
                false
            }
        },
        _ => true,
    }
}

fn forbidden_check_cmd(c: &Command) -> (r: bool)
    ensures
        r == forbidden_cmd(c@),
    decreases c,
{
    match c {
        Command::Binding(Binding::Declaration(n, _, _)) => no_forbidden_decs_check(crate::copying::copy_var(n)),
        Command::Binding(Binding::Assignment(n, _, _, _)) => no_forbidden_decs_check(crate::copying::copy_var(n)),
        Command::Binding(Binding::Tuple(vec)) => {
            let ghost sv = m_cmds(vec@);
            let mut i: usize = 0;
            proof {
                assert(sv.skip(0) =~= sv);
                assert(c@->Binding_0->Tuple_0 =~= sv);
            }
            #[verifier::loop_isolation(false)]
            while i < vec.len()
                invariant
                    i <= vec.len(),
                    sv == m_cmds(vec@),
                    forbidden_tuple(sv) == forbidden_tuple(sv.skip(i as int)),
                decreases vec.len() - i,
            {
                proof {
                    assert(sv.skip(i as int).drop_first() =~= sv.skip(i + 1));
                    assert(sv.skip(i as int)[0] == sv[i as int]);
                }
                let ok = match &vec[i] {
                    Command::Binding(Binding::Declaration(n, _, _)) => no_forbidden_decs_check(crate::copying::copy_var(n)),
                    Command::Binding(Binding::Assignment(n, _, _, _)) => no_forbidden_decs_check(crate::copying::copy_var(n)),
                    _ => true,
                };
                if !ok {
                    return false;
                }
                i = i + 1;
            }
            proof {
                assert(sv.skip(vec@.len() as int) =~= Seq::<SCommand>::empty());
            }
            true
        },
        Command::Block(Block::If(_, bodies, el)) => {
            let ghost sb = c@->Block_0->If_1;
            let mut i: usize = 0;
            proof {
                assert(sb.skip(0) =~= sb);
            }
            #[verifier::loop_isolation(false)]
            while i < bodies.len()
                invariant
                    i <= bodies.len(),
                    forbidden_bodies(sb) == forbidden_bodies(sb.skip(i as int)),
                decreases bodies.len() - i,
            {
                assert(decreases_to!(c => bodies@[i as int]));
                proof {
                    assert(sb.skip(i as int).drop_first() =~= sb.skip(i + 1));
                    assert(sb.skip(i as int)[0] =~= m_cmds(bodies@[i as int]@));
                }
                if !forbidden_check_cmds(&bodies[i]) {
                    return false;
                }
                i = i + 1;
            }
            proof {
                assert(sb.skip(bodies@.len() as int) =~= Seq::<Seq<SCommand>>::empty());
                assert(c@->Block_0->If_2 =~= m_cmds(el@));
            }
            forbidden_check_cmds(el)
        },
        Command::Block(Block::ForRange(it, _, _, body, _)) => {
            proof {
                assert(c@->Block_0->ForRange_3 =~= m_cmds(body@));
            }
            no_forbidden_decs_check(crate::copying::copy_var(it)) && forbidden_check_cmds(body)
        },
        Command::Block(Block::While(_, body, _, _)) => {
            proof {
                assert(c@->Block_0->While_1 =~= m_cmds(body@));
            }
            forbidden_check_cmds(body)
        },
        _ => true,
    }
}

fn forbidden_check_cmds(cs: &Vec<Command>) -> (r: bool)
    ensures
        r == forbidden_cmds(m_cmds(cs@)),
    decreases cs,
{
    let ghost sv = m_cmds(cs@);
    let mut i: usize = 0;
    proof {
        assert(sv.skip(0) =~= sv);
    }
    while i < cs.len()
        invariant
            i <= cs.len(),
            sv == m_cmds(cs@),
            forbidden_cmds(sv) == forbidden_cmds(sv.skip(i as int)),
        decreases cs.len() - i,
    {
        assert(decreases_to!(cs => cs@[i as int]));
        proof {
            assert(sv.skip(i as int).drop_first() =~= sv.skip(i + 1));
            assert(sv.skip(i as int)[0] == cs@[i as int]@);
        }
        if !forbidden_check_cmd(&cs[i]) {
            return false;
        }
        i = i + 1;
    }
    proof {
        assert(sv.skip(cs@.len() as int) =~= Seq::<SCommand>::empty());
    }
    true
}

/// No binding in `content` declares a reserved name.
pub fn no_forbidden_decs_logic(content: Vec<Command>) -> (r: bool)
    ensures
        r == forbidden_cmds(m_cmds(content@)),
{
    forbidden_check_cmds(&content)
}

// ------------------------------------------------------------------
// No declaration may reuse a name that is already defined.
// ------------------------------------------------------------------
pub open spec fn shadow_check(defs: Seq<Seq<char>>, v: SVariable) -> (bool, Seq<Seq<char>>) {
    match v {
        SVariable::Named(a) => if defs.contains(a) {
            (false, defs)
        } else {
            (true, defs.push(a))
        },
        _ => (true, defs),
    }
}

pub open spec fn shadow_tuple(s: Seq<SCommand>, defs: Seq<Seq<char>>) -> (bool, Seq<Seq<char>>)
    decreases s.len(),
{
    if s.len() == 0 {
        (true, defs)
    } else {
        let (ok, d) = match s[0] {
            SCommand::Binding(SBinding::Declaration(n, _, _)) => shadow_check(defs, n),
            SCommand::Binding(SBinding::Assignment(n, _, _, _)) => shadow_check(defs, n),
            _ => (true, defs),
        };
        if !ok {
            (false, d)
        } else {
            shadow_tuple(s.drop_first(), d)
        }
    }
}

/// Checking one command: whether it passed, and the definitions after it.
/// The names declared inside a block stay inside it.
pub open spec fn shadow_cmd(c: SCommand, defs: Seq<Seq<char>>) -> (bool, Seq<Seq<char>>)
    decreases c,
{
    match c {
        SCommand::Binding(SBinding::Declaration(n, _, _)) => shadow_check(defs, n),
        SCommand::Binding(SBinding::Assignment(n, _, _, _)) => shadow_check(defs, n),
        SCommand::Binding(SBinding::Tuple(s)) => shadow_tuple(s, defs),
        SCommand::Block(SBlock::If(_, bodies, el)) => (
            shadow_bodies(bodies, defs) && shadow_cmds(el, defs).0,
            defs,
        ),
        SCommand::Block(SBlock::ForRange(it, _, _, body, _)) => (
            shadow_check(defs, it).0 && shadow_cmds(body, shadow_check(defs, it).1).0,
            defs,
        ),
        SCommand::Block(SBlock::While(_, body, _, _)) => (shadow_cmds(body, defs).0, defs),
        _ => (true, defs),
    }
}

pub open spec fn shadow_bodies(s: Seq<Seq<SCommand>>, defs: Seq<Seq<char>>) -> bool
    decreases s,
{
    if s.len() == 0 {
        true
    } else {
        shadow_cmds(s[0], defs).0 && shadow_bodies(s.drop_first(), defs)
    }
}

pub open spec fn shadow_cmds(s: Seq<SCommand>, defs: Seq<Seq<char>>) -> (bool, Seq<Seq<char>>)
    decreases s,
{
    if s.len() == 0 {
        (true, defs)
    } else {
        let (ok, d) = shadow_cmd(s[0], defs);
        if !ok {
            (false, d)
        } else {
            shadow_cmds(s.drop_first(), d)
        }
    }
}

/// Declares `val`: fails if its name is defined already, and otherwise
/// adds the name to the definitions.
pub fn no_shadowing_check(definitions: &mut Vec<String>, val: Variable) -> (r: bool)
    ensures
        (r, m_strs(final(definitions)@)) == shadow_check(m_strs(old(definitions)@), val@),
{
    match &val {
        Variable::Named(a) => {
            if contains_string(definitions, a) {
                false
            } else {
                definitions.push(copy_string(a));
                proof {
                    assert(m_strs(definitions@) =~= m_strs(old(definitions)@).push(a@));
                }
                true
            }
        },
        _ => true,
    }
}

fn shadow_check_cmd(c: &Command, defs: &mut Vec<String>) -> (r: bool)
    ensures
        (r, m_strs(final(defs)@)) == shadow_cmd(c@, m_strs(old(defs)@)),
    decreases c,
{
    match c {
        Command::Binding(Binding::Declaration(n, _, _)) => no_shadowing_check(defs, crate::copying::copy_var(n)),
        Command::Binding(Binding::Assignment(n, _, _, _)) => no_shadowing_check(defs, crate::copying::copy_var(n)),
        Command::Binding(Binding::Tuple(vec)) => {
            let ghost sv = m_cmds(vec@);
            let mut i: usize = 0;
            proof {
                assert(sv.skip(0) =~= sv);
                assert(c@->Binding_0->Tuple_0 =~= sv);
            }
            #[verifier::loop_isolation(false)]
            while i < vec.len()
                invariant
                    i <= vec.len(),
                    sv == m_cmds(vec@),
                    shadow_tuple(sv, m_strs(old(defs)@)) == shadow_tuple(sv.skip(i as int), m_strs(defs@)),
                decreases vec.len() - i,
            {
                proof {
                    assert(sv.skip(i as int).drop_first() =~= sv.skip(i + 1));
                    assert(sv.skip(i as int)[0] == sv[i as int]);
                }
                let ok = match &vec[i] {
                    Command::Binding(Binding::Declaration(n, _, _)) => no_shadowing_check(defs, crate::copying::copy_var(n)),
                    Command::Binding(Binding::Assignment(n, _, _, _)) => no_shadowing_check(defs, crate::copying::copy_var(n)),
                    _ => true,
                };
                if !ok {
                    return false;
                }
                i = i + 1;
            }
            proof {
                assert(sv.skip(vec@.len() as int) =~= Seq::<SCommand>::empty());
            }
            true
        },
        Command::Block(Block::If(_, bodies, el)) => {
            let ghost sb = c@->Block_0->If_1;
            let mut i: usize = 0;
            proof {
                assert(sb.skip(0) =~= sb);
            }
            #[verifier::loop_isolation(false)]
            while i < bodies.len()
                invariant
                    i <= bodies.len(),
                    defs@ == old(defs)@,
                    shadow_bodies(sb, m_strs(defs@)) == shadow_bodies(sb.skip(i as int), m_strs(defs@)),
                decreases bodies.len() - i,
            {
                assert(decreases_to!(c => bodies@[i as int]));
                proof {
                    assert(sb.skip(i as int).drop_first() =~= sb.skip(i + 1));
                    assert(sb.skip(i as int)[0] =~= m_cmds(bodies@[i as int]@));
                }
                let mut state = copy_strings(defs);
                if !shadow_check_cmds(&bodies[i], &mut state) {
                    return false;
                }
                i = i + 1;
            }
            proof {
                assert(sb.skip(bodies@.len() as int) =~= Seq::<Seq<SCommand>>::empty());
                assert(c@->Block_0->If_2 =~= m_cmds(el@));
            }
            let mut state = copy_strings(defs);
            shadow_check_cmds(el, &mut state)
        },
        Command::Block(Block::ForRange(it, _, _, body, _)) => {
            let mut state = copy_strings(defs);
            proof {
                assert(c@->Block_0->ForRange_3 =~= m_cmds(body@));
            }
            if !no_shadowing_check(&mut state, crate::copying::copy_var(it)) {
                return false;
            }
            shadow_check_cmds(body, &mut state)
        },
        Command::Block(Block::While(_, body, _, _)) => {
            let mut state = copy_strings(defs);
            proof {
                assert(c@->Block_0->While_1 =~= m_cmds(body@));
            }
            shadow_check_cmds(body, &mut state)
        },
        _ => true,
    }
}

fn shadow_check_cmds(cs: &Vec<Command>, defs: &mut Vec<String>) -> (r: bool)
    ensures
        (r, m_strs(final(defs)@)) == shadow_cmds(m_cmds(cs@), m_strs(old(defs)@)),
    decreases cs,
{
    let ghost sv = m_cmds(cs@);
    let mut i: usize = 0;
    proof {
        assert(sv.skip(0) =~= sv);
    }
    while i < cs.len()
        invariant
            i <= cs.len(),
            sv == m_cmds(cs@),
            shadow_cmds(sv, m_strs(old(defs)@)) == shadow_cmds(sv.skip(i as int), m_strs(defs@)),
        decreases cs.len() - i,
    {
        assert(decreases_to!(cs => cs@[i as int]));
        proof {
            assert(sv.skip(i as int).drop_first() =~= sv.skip(i + 1));
            assert(sv.skip(i as int)[0] == cs@[i as int]@);
        }
        if !shadow_check_cmd(&cs[i], defs) {
            return false;
        }
        i = i + 1;
    }
    proof {
        assert(sv.skip(cs@.len() as int) =~= Seq::<SCommand>::empty());
    }
    true
}

/// Checks, in order, that no binding of `content` declares a name of
/// `definitions` or one declared before it; `definitions` gets the names
/// declared outside blocks.
pub fn no_shadowing_logic(content: Vec<Command>, definitions: &mut Vec<String>) -> (r: bool)
    ensures
        (r, m_strs(final(definitions)@)) == shadow_cmds(m_cmds(content@), m_strs(old(definitions)@)),
{
    shadow_check_cmds(&content, definitions)
}

// ------------------------------------------------------------------
// Whole programs.
// ------------------------------------------------------------------
pub open spec fn function_names(fs: Seq<SFunction>) -> Seq<Seq<char>> {
    fs.map_values(|f: SFunction| f.name)
}

/// Every parameter is declared by a plain name.
pub open spec fn inputs_named(s: Seq<SBinding>) -> bool {
    forall|i: int| 0 <= i < s.len() ==> (#[trigger] s[i] matches SBinding::Declaration(SVariable::Named(_), _, _))
}

/// The names that the parameters define: each name, and its `'old` version.
pub open spec fn input_defs(s: Seq<SBinding>) -> Seq<Seq<char>>
    decreases s.len(),
{
    if s.len() == 0 {
        Seq::empty()
    } else {
        match s.last() {
            SBinding::Declaration(SVariable::Named(x), _, _) => input_defs(s.drop_last()).push(x).push(x + old_suffix()),
            _ => input_defs(s.drop_last()),
        }
    }
}

/// The check of defined names over the functions, in order; `None` where a
/// function with a parameter that is not a plain declaration is reached.
pub open spec fn undefined_funcs(fs: Seq<SFunction>, names: Seq<Seq<char>>) -> Option<bool>
    decreases fs.len(),
{
    if fs.len() == 0 {
        Some(true)
    } else if !inputs_named(fs[0].input) {
        None
    } else if !undefined_cmds(fs[0].content, input_defs(fs[0].input), names).0 {
        Some(false)
    } else {
        undefined_funcs(fs.drop_first(), names)
    }
}

/// The names of the parameters that are plain declarations.
pub open spec fn param_names(s: Seq<SBinding>) -> Seq<Seq<char>>
    decreases s.len(),
{
    if s.len() == 0 {
        Seq::empty()
    } else {
        match s.last() {
            SBinding::Declaration(SVariable::Named(x), _, _) => param_names(s.drop_last()).push(x),
            _ => param_names(s.drop_last()),
        }
    }
}

/// The names taken when the body of `f` starts: the functions and the
/// parameters of `f`.
pub open spec fn taken_names(f: SFunction, fs: Seq<SFunction>) -> Seq<Seq<char>> {
    function_names(fs) + param_names(f.input)
}

pub open spec fn shadow_program(p: SProgram) -> bool {
    forall|i: int| 0 <= i < p.content.len() ==> (#[trigger] shadow_cmds(p.content[i].content, taken_names(p.content[i], p.content))).0
}

pub open spec fn forbidden_program(p: SProgram) -> bool {
    forall|i: int| 0 <= i < p.content.len() ==> #[trigger] forbidden_cmds(p.content[i].content)
}

/// The checks of `validate` reach no parameter that is not a plain declaration.
pub open spec fn validate_defined(p: SProgram) -> bool {
    shadow_program(p) && forbidden_program(p) ==> undefined_funcs(p.content, function_names(p.content)) is Some
}

pub open spec fn validate_spec(p: SProgram) -> bool {
    shadow_program(p) && forbidden_program(p) && undefined_funcs(p.content, function_names(p.content)) == Some(true)
}

fn names_of_functions(fs: &Vec<Function>) -> (r: Vec<String>)
    ensures
        m_strs(r@) == function_names(fs@.map_values(|f: Function| f@)),
{
    let mut r: Vec<String> = Vec::new();
    let mut i: usize = 0;
    while i < fs.len()
        invariant
            i <= fs.len(),
            m_strs(r@) == function_names(fs@.map_values(|f: Function| f@)).take(i as int),
        decreases fs.len() - i,
    {
        let ghost before = r@;
        r.push(copy_string(&fs[i].name));
        proof {
            let names = function_names(fs@.map_values(|f: Function| f@));
            assert(names[i as int] == fs@[i as int].name@);
            assert(m_strs(r@) =~= m_strs(before).push(names[i as int]));
            assert(names.take(i + 1) =~= names.take(i as int).push(names[i as int]));
            assert(m_strs(r@) =~= names.take(i + 1));
        }
        i = i + 1;
    }
    proof {
        assert(function_names(fs@.map_values(|f: Function| f@)).take(fs@.len() as int) =~= function_names(fs@.map_values(|f: Function| f@)));
    }
    r
}

/// The names of the parameters of `f` that are plain declarations.
fn parameter_names(f: &Function) -> (r: Vec<String>)
    ensures
        m_strs(r@) == param_names(f@.input),
{
    let mut r: Vec<String> = Vec::new();
    let mut i: usize = 0;
    proof {
        assert(f@.input.take(0) =~= Seq::<SBinding>::empty());
    }
    while i < f.input.len()
        invariant
            i <= f.input.len(),
            f@.input.len() == f.input.len(),
            m_strs(r@) == param_names(f@.input.take(i as int)),
        decreases f.input.len() - i,
    {
        proof {
            assert(f@.input.take(i + 1).drop_last() =~= f@.input.take(i as int));
            assert(f@.input.take(i + 1).last() == f.input@[i as int]@);
        }
        match &f.input[i] {
            Binding::Declaration(Variable::Named(x), _, _) => {
                let ghost before = r@;
                r.push(copy_string(x));
                proof {
                    assert(m_strs(r@) =~= m_strs(before).push(x@));
                }
            },
            _ => {},
        }
        i = i + 1;
    }
    proof {
        assert(f@.input.take(f@.input.len() as int) =~= f@.input);
    }
    r
}

/// No function declares a name that is already defined: the function names
/// and the function's parameters are defined from the start.
pub fn no_shadowing(input: &Program) -> (r: bool)
    ensures
        r == shadow_program(input@),
{
    let definitions = names_of_functions(&input.content);
    let mut i: usize = 0;
    while i < input.content.len()
        invariant
            i <= input.content.len(),
            m_strs(definitions@) == function_names(input@.content),
            forall|j: int| 0 <= j < i ==> (#[trigger] shadow_cmds(input@.content[j].content, taken_names(input@.content[j], input@.content))).0,
        decreases input.content.len() - i,
    {
        let mut defs = copy_strings(&definitions);
        let mut params = parameter_names(&input.content[i]);
        proof {
            assert(input@.content[i as int] == input.content@[i as int]@);
            assert(m_strs(defs@) + m_strs(params@) =~= m_strs(defs@ + params@));
        }
        defs.append(&mut params);
        let body = crate::copying::copy_cmds(&input.content[i].content);
        if !no_shadowing_logic(body, &mut defs) {
            proof {
                assert(!(shadow_cmds(input@.content[i as int].content, taken_names(input@.content[i as int], input@.content))).0);
            }
            return false;
        }
        i = i + 1;
    }
    true
}

/// No function declares a reserved name.
pub fn no_forbidden_decs(input: &Program) -> (r: bool)
    ensures
        r == forbidden_program(input@),
{
    let mut i: usize = 0;
    while i < input.content.len()
        invariant
            i <= input.content.len(),
            forall|j: int| 0 <= j < i ==> #[trigger] forbidden_cmds(input@.content[j].content),
        decreases input.content.len() - i,
    {
        let body = crate::copying::copy_cmds(&input.content[i].content);
        proof {
            assert(input@.content[i as int] == input.content@[i as int]@);
        }
        if !no_forbidden_decs_logic(body) {
            proof {
                assert(!forbidden_cmds(input@.content[i as int].content));
            }
            return false;
        }
        i = i + 1;
    }
    true
}

/// Whether every parameter of `f` is a declaration of a plain name.
pub fn inputs_are_named(f: &Function) -> (r: bool)
    ensures
        r == inputs_named(f@.input),
{
    let mut i: usize = 0;
    while i < f.input.len()
        invariant
            i <= f.input.len(),
            forall|j: int| 0 <= j < i ==> (#[trigger] f@.input[j] matches SBinding::Declaration(SVariable::Named(_), _, _)),
        decreases f.input.len() - i,
    {
        match &f.input[i] {
            Binding::Declaration(Variable::Named(_), _, _) => {},
            _ => {
                proof {
                    assert(!(f@.input[i as int] matches SBinding::Declaration(SVariable::Named(_), _, _)));
                }
                return false;
            },
        }
        i = i + 1;
    }
    true
}

/// The names that the parameters of `f` define.
fn input_definitions(f: &Function) -> (r: Vec<String>)
    requires
        inputs_named(f@.input),
    ensures
        m_strs(r@) == input_defs(f@.input),
{
    let mut r: Vec<String> = Vec::new();
    let mut i: usize = 0;
    while i < f.input.len()
        invariant
            i <= f.input.len(),
            inputs_named(f@.input),
            m_strs(r@) == input_defs(f@.input.take(i as int)),
        decreases f.input.len() - i,
    {
        proof {
            assert(f@.input.take(i + 1).drop_last() =~= f@.input.take(i as int));
            assert(f@.input[i as int] matches SBinding::Declaration(SVariable::Named(_), _, _));
        }
        match &f.input[i] {
            Binding::Declaration(Variable::Named(x), _, _) => {
                r.push(copy_string(x));
                let mut o = copy_string(x);
                o.append("'old");
                proof {
                    reveal_strlit("'old");
                    assert(o@ =~= x@ + old_suffix());
                }
                r.push(o);
                proof {
                    assert(m_strs(r@) =~= input_defs(f@.input.take(i + 1)));
                }
            },
            _ => {},
        }
        i = i + 1;
    }
    proof {
        assert(f@.input.take(f@.input.len() as int) =~= f@.input);
    }
    r
}

/// The annotations of every function use only defined names: the
/// parameters (also with `'old`), the names declared before, and the functions.
pub fn no_undefined(input: &Program) -> (r: bool)
    requires
        undefined_funcs(input@.content, function_names(input@.content)) is Some,
    ensures
        r == (undefined_funcs(input@.content, function_names(input@.content)) == Some(true)),
{
    let functions = names_of_functions(&input.content);
    let ghost fs = input@.content;
    let mut i: usize = 0;
    proof {
        assert(fs.skip(0) =~= fs);
    }
    while i < input.content.len()
        invariant
            i <= input.content.len(),
            fs == input@.content,
            m_strs(functions@) == function_names(fs),
            undefined_funcs(fs, function_names(fs)) == undefined_funcs(fs.skip(i as int), function_names(fs)),
            undefined_funcs(fs, function_names(fs)) is Some,
        decreases input.content.len() - i,
    {
        proof {
            assert(fs.skip(i as int).drop_first() =~= fs.skip(i + 1));
            assert(fs.skip(i as int)[0] == fs[i as int]);
        }
        let func = &input.content[i];
        proof {
            assert(fs[i as int] == input.content@[i as int]@);
        }
        let named = inputs_are_named(func);
        if !named {
            return false;
        }
        let mut definitions = input_definitions(func);
        if !no_undefined_logic(crate::copying::copy_cmds(&func.content), &mut definitions, &functions) {
            return false;
        }
        i = i + 1;
    }
    proof {
        assert(fs.skip(fs.len() as int) =~= Seq::<SFunction>::empty());
    }
    true
}

/// Whether `validate` can be called on `input`: the check of defined names,
/// where it is reached, meets only parameters that are plain declarations.
pub fn validation_defined(input: &Program) -> (r: bool)
    ensures
        r == validate_defined(input@),
{
    if !(no_shadowing(input) && no_forbidden_decs(input)) {
        return true;
    }
    let ghost fs = input@.content;
    let mut i: usize = 0;
    proof {
        assert(fs.skip(0) =~= fs);
    }
    let functions = names_of_functions(&input.content);
    while i < input.content.len()
        invariant
            i <= input.content.len(),
            fs == input@.content,
            m_strs(functions@) == function_names(fs),
            shadow_program(input@) && forbidden_program(input@),
            undefined_funcs(fs, function_names(fs)) == undefined_funcs(fs.skip(i as int), function_names(fs)),
        decreases input.content.len() - i,
    {
        proof {
            assert(fs.skip(i as int).drop_first() =~= fs.skip(i + 1));
            assert(fs.skip(i as int)[0] == fs[i as int]);
        }
        let func = &input.content[i];
        proof {
            assert(fs[i as int] == input.content@[i as int]@);
        }
        if !inputs_are_named(func) {
            return false;
        }
        let mut definitions = input_definitions(func);
        if !no_undefined_logic(crate::copying::copy_cmds(&func.content), &mut definitions, &functions) {
            return true;
        }
        i = i + 1;
    }
    proof {
        assert(fs.skip(fs.len() as int) =~= Seq::<SFunction>::empty());
    }
    true
}

/// A program is valid when no declaration shadows another, no reserved
/// name is declared, and the annotations use only defined names.
pub fn validate(input: Program) -> (r: bool)
    requires
        validate_defined(input@),
    ensures
        r == validate_spec(input@),
{
    no_shadowing(&input) && no_forbidden_decs(&input) && no_undefined(&input)
}

// ------------------------------------------------------------------
// Laws: what validation refuses, stated over where names occur.
// ------------------------------------------------------------------
/// A binding element of a tuple binding that binds the name `a`.
pub open spec fn element_binds(c: SCommand, a: Seq<char>) -> bool {
    match c {
        SCommand::Binding(SBinding::Declaration(n, _, _)) => n == SVariable::Named(a),
        SCommand::Binding(SBinding::Assignment(n, _, _, _)) => n == SVariable::Named(a),
        _ => false,
    }
}

/// The command is a binding of the name `a`: a declaration, an assignment
/// binding, or a tuple binding with an element that binds `a`.
pub open spec fn binds_name(c: SCommand, a: Seq<char>) -> bool {
    match c {
        SCommand::Binding(SBinding::Tuple(s)) => exists|k: int| 0 <= k < s.len() && #[trigger] element_binds(s[k], a),
        _ => element_binds(c, a),
    }
}

/// The command declares `a`, itself or anywhere inside its blocks (the
/// iterator of a `for` loop included).
pub open spec fn declares_in_cmd(c: SCommand, a: Seq<char>) -> bool
    decreases c,
{
    binds_name(c, a) || match c {
        SCommand::Block(SBlock::If(_, bodies, el)) => declares_in_bodies(bodies, a) || declares_in(el, a),
        SCommand::Block(SBlock::ForRange(it, _, _, body, _)) => it == SVariable::Named(a) || declares_in(body, a),
        SCommand::Block(SBlock::While(_, body, _, _)) => declares_in(body, a),
        _ => false,
    }
}

pub open spec fn declares_in_bodies(s: Seq<Seq<SCommand>>, a: Seq<char>) -> bool
    decreases s,
{
    if s.len() == 0 {
        false
    } else {
        declares_in(s[0], a) || declares_in_bodies(s.drop_first(), a)
    }
}

/// Some command of `s` declares `a`, at any depth.
pub open spec fn declares_in(s: Seq<SCommand>, a: Seq<char>) -> bool
    decreases s,
{
    if s.len() == 0 {
        false
    } else {
        declares_in_cmd(s[0], a) || declares_in(s.drop_first(), a)
    }
}

/// A name reserved for the annotations.
pub open spec fn reserved(a: Seq<char>) -> bool {
    a == seq!['r', 'e', 't', 'u', 'r', 'n', '_', 'v', 'a', 'l', 'u', 'e'] || (a.len() >= 4
        && a.subrange(a.len() - 4, a.len() as int) == seq!['\'', 'o', 'l', 'd'])
}

proof fn lemma_forbidden_tuple(s: Seq<SCommand>, a: Seq<char>, k: int)
    requires
        0 <= k < s.len(),
        element_binds(s[k], a),
        reserved(a),
    ensures
        !forbidden_tuple(s),
    decreases s.len(),
{
    if k > 0 {
        assert(s.drop_first()[k - 1] == s[k]);
        lemma_forbidden_tuple(s.drop_first(), a, k - 1);
    }
}

proof fn lemma_forbidden_cmd(c: SCommand, a: Seq<char>)
    requires
        declares_in_cmd(c, a),
        reserved(a),
    ensures
        !forbidden_cmd(c),
    decreases c, 1int,
{
    if binds_name(c, a) {
        match c {
            SCommand::Binding(SBinding::Tuple(s)) => {
                let k = choose|k: int| 0 <= k < s.len() && #[trigger] element_binds(s[k], a);
                lemma_forbidden_tuple(s, a, k);
            },
            _ => {},
        }
    } else {
        match c {
            SCommand::Block(SBlock::If(_, bodies, el)) => {
                if declares_in_bodies(bodies, a) {
                    lemma_forbidden_bodies(bodies, a);
                } else {
                    lemma_forbidden_cmds(el, a);
                }
            },
            SCommand::Block(SBlock::ForRange(it, _, _, body, _)) => {
                if it != SVariable::Named(a) {
                    lemma_forbidden_cmds(body, a);
                }
            },
            SCommand::Block(SBlock::While(_, body, _, _)) => {
                lemma_forbidden_cmds(body, a);
            },
            _ => {},
        }
    }
}

proof fn lemma_forbidden_bodies(s: Seq<Seq<SCommand>>, a: Seq<char>)
    requires
        declares_in_bodies(s, a),
        reserved(a),
    ensures
        !forbidden_bodies(s),
    decreases s, 0int,
{
    if declares_in(s[0], a) {
        lemma_forbidden_cmds(s[0], a);
    } else {
        lemma_forbidden_bodies(s.drop_first(), a);
    }
}

proof fn lemma_forbidden_cmds(s: Seq<SCommand>, a: Seq<char>)
    requires
        declares_in(s, a),
        reserved(a),
    ensures
        !forbidden_cmds(s),
    decreases s, 0int,
{
    if declares_in_cmd(s[0], a) {
        lemma_forbidden_cmd(s[0], a);
    } else {
        lemma_forbidden_cmds(s.drop_first(), a);
    }
}

/// A function whose body declares `return_value` or a name ending in
/// `'old`, anywhere (inside a loop or a branch too), makes the program
/// invalid.
pub proof fn law_reserved_declaration_refused(p: SProgram, i: int, a: Seq<char>)
    requires
        0 <= i < p.content.len(),
        declares_in(p.content[i].content, a),
        reserved(a),
    ensures
        !validate_spec(p),
{
    lemma_forbidden_cmds(p.content[i].content, a);
}

proof fn lemma_shadow_tuple_grows(s: Seq<SCommand>, defs: Seq<Seq<char>>, a: Seq<char>)
    requires
        defs.contains(a),
    ensures
        shadow_tuple(s, defs).1.contains(a),
    decreases s.len(),
{
    if s.len() > 0 {
        let d = match s[0] {
            SCommand::Binding(SBinding::Declaration(n, _, _)) => shadow_check(defs, n),
            SCommand::Binding(SBinding::Assignment(n, _, _, _)) => shadow_check(defs, n),
            _ => (true, defs),
        };
        assert(d.1.contains(a)) by {
            if d.1 != defs {
                let j = choose|j: int| 0 <= j < defs.len() && defs[j] == a;
                assert(d.1[j] == a);
            }
        }
        if d.0 {
            lemma_shadow_tuple_grows(s.drop_first(), d.1, a);
        }
    }
}

proof fn lemma_shadow_cmd_grows(c: SCommand, defs: Seq<Seq<char>>, a: Seq<char>)
    requires
        defs.contains(a),
    ensures
        shadow_cmd(c, defs).1.contains(a),
{
    match c {
        SCommand::Binding(SBinding::Tuple(s)) => lemma_shadow_tuple_grows(s, defs, a),
        _ => {
            let d = shadow_cmd(c, defs).1;
            if d != defs {
                let j = choose|j: int| 0 <= j < defs.len() && defs[j] == a;
                assert(d[j] == a);
            }
        },
    }
}

proof fn lemma_shadow_cmds_grows(s: Seq<SCommand>, defs: Seq<Seq<char>>, a: Seq<char>)
    requires
        defs.contains(a),
    ensures
        shadow_cmds(s, defs).1.contains(a),
    decreases s.len(),
{
    if s.len() > 0 {
        lemma_shadow_cmd_grows(s[0], defs, a);
        let (ok, d) = shadow_cmd(s[0], defs);
        if ok {
            lemma_shadow_cmds_grows(s.drop_first(), d, a);
        }
    }
}

proof fn lemma_shadow_tuple_taken(s: Seq<SCommand>, defs: Seq<Seq<char>>, a: Seq<char>, k: int)
    requires
        0 <= k < s.len(),
        element_binds(s[k], a),
        defs.contains(a),
    ensures
        !shadow_tuple(s, defs).0,
    decreases s.len(),
{
    if k > 0 {
        let d = match s[0] {
            SCommand::Binding(SBinding::Declaration(n, _, _)) => shadow_check(defs, n),
            SCommand::Binding(SBinding::Assignment(n, _, _, _)) => shadow_check(defs, n),
            _ => (true, defs),
        };
        if d.0 {
            assert(d.1.contains(a)) by {
                if d.1 != defs {
                    let j = choose|j: int| 0 <= j < defs.len() && defs[j] == a;
                    assert(d.1[j] == a);
                }
            }
            assert(s.drop_first()[k - 1] == s[k]);
            lemma_shadow_tuple_taken(s.drop_first(), d.1, a, k - 1);
        }
    }
}

proof fn lemma_shadow_tuple_adds(s: Seq<SCommand>, defs: Seq<Seq<char>>, a: Seq<char>, k: int)
    requires
        0 <= k < s.len(),
        element_binds(s[k], a),
        shadow_tuple(s, defs).0,
    ensures
        shadow_tuple(s, defs).1.contains(a),
    decreases s.len(),
{
    let d = match s[0] {
        SCommand::Binding(SBinding::Declaration(n, _, _)) => shadow_check(defs, n),
        SCommand::Binding(SBinding::Assignment(n, _, _, _)) => shadow_check(defs, n),
        _ => (true, defs),
    };
    if k == 0 {
        assert(d.1 == defs.push(a));
        assert(d.1[defs.len() as int] == a);
        lemma_shadow_tuple_grows(s.drop_first(), d.1, a);
    } else {
        assert(s.drop_first()[k - 1] == s[k]);
        lemma_shadow_tuple_adds(s.drop_first(), d.1, a, k - 1);
    }
}

proof fn lemma_shadow_cmd_taken(c: SCommand, defs: Seq<Seq<char>>, a: Seq<char>)
    requires
        declares_in_cmd(c, a),
        defs.contains(a),
    ensures
        !shadow_cmd(c, defs).0,
    decreases c, 1int,
{
    if binds_name(c, a) {
        match c {
            SCommand::Binding(SBinding::Tuple(s)) => {
                let k = choose|k: int| 0 <= k < s.len() && #[trigger] element_binds(s[k], a);
                lemma_shadow_tuple_taken(s, defs, a, k);
            },
            _ => {},
        }
    } else {
        match c {
            SCommand::Block(SBlock::If(_, bodies, el)) => {
                if declares_in_bodies(bodies, a) {
                    lemma_shadow_bodies_taken(bodies, defs, a);
                } else {
                    lemma_shadow_cmds_taken(el, defs, a);
                }
            },
            SCommand::Block(SBlock::ForRange(it, _, _, body, _)) => {
                if it != SVariable::Named(a) {
                    let d = shadow_check(defs, it).1;
                    assert(d.contains(a)) by {
                        if d != defs {
                            let j = choose|j: int| 0 <= j < defs.len() && defs[j] == a;
                            assert(d[j] == a);
                        }
                    }
                    lemma_shadow_cmds_taken(body, d, a);
                }
            },
            SCommand::Block(SBlock::While(_, body, _, _)) => {
                lemma_shadow_cmds_taken(body, defs, a);
            },
            _ => {},
        }
    }
}

proof fn lemma_shadow_bodies_taken(s: Seq<Seq<SCommand>>, defs: Seq<Seq<char>>, a: Seq<char>)
    requires
        declares_in_bodies(s, a),
        defs.contains(a),
    ensures
        !shadow_bodies(s, defs),
    decreases s, 0int,
{
    if declares_in(s[0], a) {
        lemma_shadow_cmds_taken(s[0], defs, a);
    } else {
        lemma_shadow_bodies_taken(s.drop_first(), defs, a);
    }
}

proof fn lemma_shadow_cmds_taken(s: Seq<SCommand>, defs: Seq<Seq<char>>, a: Seq<char>)
    requires
        declares_in(s, a),
        defs.contains(a),
    ensures
        !shadow_cmds(s, defs).0,
    decreases s, 0int,
{
    if declares_in_cmd(s[0], a) {
        lemma_shadow_cmd_taken(s[0], defs, a);
    } else {
        let (ok, d) = shadow_cmd(s[0], defs);
        if ok {
            lemma_shadow_cmd_grows(s[0], defs, a);
            lemma_shadow_cmds_taken(s.drop_first(), d, a);
        }
    }
}

proof fn lemma_declares_append(x: Seq<SCommand>, y: Seq<SCommand>, a: Seq<char>)
    requires
        declares_in(y, a),
    ensures
        declares_in(x + y, a),
    decreases x.len(),
{
    if x.len() == 0 {
        assert(x + y =~= y);
    } else {
        assert((x + y).drop_first() =~= x.drop_first() + y);
        lemma_declares_append(x.drop_first(), y, a);
    }
}

/// A name bound at the top of `pre` is taken when `rest` starts.
proof fn lemma_shadow_split(pre: Seq<SCommand>, rest: Seq<SCommand>, defs: Seq<Seq<char>>, a: Seq<char>, k: int)
    requires
        0 <= k < pre.len(),
        binds_name(pre[k], a),
        declares_in(rest, a),
    ensures
        !shadow_cmds(pre + rest, defs).0,
    decreases pre.len(),
{
    let all = pre + rest;
    assert(all[0] == pre[0]);
    assert(all.drop_first() =~= pre.drop_first() + rest);
    let (ok, d) = shadow_cmd(pre[0], defs);
    if ok {
        if k == 0 {
            match pre[0] {
                SCommand::Binding(SBinding::Tuple(s)) => {
                    let j = choose|j: int| 0 <= j < s.len() && #[trigger] element_binds(s[j], a);
                    lemma_shadow_tuple_adds(s, defs, a, j);
                },
                _ => {
                    assert(d == defs.push(a));
                    assert(d[defs.len() as int] == a);
                },
            }
            lemma_declares_append(pre.drop_first(), rest, a);
            lemma_shadow_cmds_taken(all.drop_first(), d, a);
        } else {
            assert(pre.drop_first()[k - 1] == pre[k]);
            lemma_shadow_split(pre.drop_first(), rest, d, a, k - 1);
        }
    }
}

proof fn lemma_param_names_has(s: Seq<SBinding>, j: int, a: Seq<char>)
    requires
        0 <= j < s.len(),
        s[j] matches SBinding::Declaration(SVariable::Named(x), _, _) && x == a,
    ensures
        param_names(s).contains(a),
    decreases s.len(),
{
    if j == s.len() - 1 {
        let q = param_names(s.drop_last());
        assert(param_names(s) == q.push(a));
        assert(param_names(s)[q.len() as int] == a);
    } else {
        assert(s.drop_last()[j] == s[j]);
        lemma_param_names_has(s.drop_last(), j, a);
        let q = param_names(s.drop_last());
        let m = choose|m: int| 0 <= m < q.len() && q[m] == a;
        match s.last() {
            SBinding::Declaration(SVariable::Named(x), _, _) => {
                assert(param_names(s)[m] == a);
            },
            _ => {},
        }
    }
}

/// A declaration, at any depth of loops and branches in `rest`, of a name
/// that is already taken where `rest` starts makes the program invalid: the
/// name of a function of the program, a parameter of the function, or a
/// name that a binding of the function's body before `rest` declared.
pub proof fn law_redeclaration_refused(p: SProgram, i: int, pre: Seq<SCommand>, rest: Seq<SCommand>, a: Seq<char>)
    requires
        0 <= i < p.content.len(),
        p.content[i].content == pre + rest,
        declares_in(rest, a),
        (exists|k: int| 0 <= k < pre.len() && #[trigger] binds_name(pre[k], a))
            || (exists|j: int| 0 <= j < p.content.len() && #[trigger] p.content[j].name == a)
            || (exists|j: int| 0 <= j < p.content[i].input.len()
                && (#[trigger] p.content[i].input[j] matches SBinding::Declaration(SVariable::Named(x), _, _) && x == a)),
    ensures
        !validate_spec(p),
{
    let f = p.content[i];
    let taken = taken_names(f, p.content);
    if exists|k: int| 0 <= k < pre.len() && #[trigger] binds_name(pre[k], a) {
        let k = choose|k: int| 0 <= k < pre.len() && #[trigger] binds_name(pre[k], a);
        lemma_shadow_split(pre, rest, taken, a, k);
    } else {
        if exists|j: int| 0 <= j < p.content.len() && #[trigger] p.content[j].name == a {
            let j = choose|j: int| 0 <= j < p.content.len() && #[trigger] p.content[j].name == a;
            assert(function_names(p.content)[j] == a);
            assert(taken[j] == a);
        } else {
            let j = choose|j: int| 0 <= j < f.input.len()
                && (#[trigger] f.input[j] matches SBinding::Declaration(SVariable::Named(x), _, _) && x == a);
            lemma_param_names_has(f.input, j, a);
            let q = param_names(f.input);
            let m = choose|m: int| 0 <= m < q.len() && q[m] == a;
            assert(taken[function_names(p.content).len() + m] == a);
        }
        lemma_declares_append(pre, rest, a);
        lemma_shadow_cmds_taken(pre + rest, taken, a);
    }
}

/// The variable is the name `x`, or an element of the array or tuple `x`.
pub open spec fn var_is(v: SVariable, x: Seq<char>) -> bool {
    match v {
        SVariable::Named(a) => a == x,
        SVariable::ArrayElem(a, _) => a == x,
        SVariable::TupleElem(a, _) => a == x,
        SVariable::Empty => false,
    }
}

pub open spec fn mentions_values(s: Seq<SValue>, x: Seq<char>) -> bool
    decreases s,
{
    if s.len() == 0 {
        false
    } else {
        mentions_values(s.drop_last(), x) || mentions_value(s.last(), x)
    }
}

/// The value uses the name `x` (an array index is not looked into).
pub open spec fn mentions_value(v: SValue, x: Seq<char>) -> bool
    decreases v,
{
    match v {
        SValue::Expr(e) => mentions_expr(e, x),
        SValue::Bool(b) => mentions_bool(b, x),
        SValue::Variable(y) => var_is(y, x),
        SValue::Tuple(s) => mentions_values(s, x),
        SValue::Array(s) => mentions_values(s, x),
        SValue::FunctionCall(_, s) => mentions_values(s, x),
        SValue::Dereference(y) => mentions_value(*y, x),
        SValue::Reference(y) => mentions_value(*y, x),
        SValue::ReferenceMutable(y) => mentions_value(*y, x),
        SValue::Ternary(c, a, b) => mentions_bool(*c, x) || mentions_value(*a, x) || mentions_value(*b, x),
        _ => false,
    }
}

pub open spec fn mentions_expr(e: SExpr, x: Seq<char>) -> bool
    decreases e,
{
    match e {
        SExpr::Number(_) => false,
        SExpr::Value(v) => mentions_value(*v, x),
        SExpr::Op(a, _, b) => mentions_expr(*a, x) || mentions_expr(*b, x),
    }
}

/// The formula uses the name `x` outside any quantifier over `x`.
pub open spec fn mentions_bool(b: SBool, x: Seq<char>) -> bool
    decreases b,
{
    match b {
        SBool::And(p, q) => mentions_bool(*p, x) || mentions_bool(*q, x),
        SBool::Or(p, q) => mentions_bool(*p, x) || mentions_bool(*q, x),
        SBool::Not(p) => mentions_bool(*p, x),
        SBool::Value(v) => mentions_value(*v, x),
        SBool::True => false,
        SBool::False => false,
        SBool::Equal(p, q) => mentions_expr(p, x) || mentions_expr(q, x),
        SBool::GreaterEqual(p, q) => mentions_expr(p, x) || mentions_expr(q, x),
        SBool::LowerEqual(p, q) => mentions_expr(p, x) || mentions_expr(q, x),
        SBool::GreaterThan(p, q) => mentions_expr(p, x) || mentions_expr(q, x),
        SBool::LowerThan(p, q) => mentions_expr(p, x) || mentions_expr(q, x),
        SBool::ForAll(u, p) => u != SVariable::Named(x) && mentions_bool(*p, x),
        SBool::Exists(u, p) => u != SVariable::Named(x) && mentions_bool(*p, x),
    }
}

/// Some assertion or assumption, or the invariant of a loop, anywhere in
/// the command uses the name `x`.
pub open spec fn checked_in_cmd(c: SCommand, x: Seq<char>) -> bool
    decreases c,
{
    match c {
        SCommand::ProveControl(SProveControl::Assert(b)) => mentions_bool(b, x),
        SCommand::ProveControl(SProveControl::Assume(b)) => mentions_bool(b, x),
        SCommand::Block(SBlock::If(_, bodies, el)) => checked_in_bodies(bodies, x) || checked_in(el, x),
        SCommand::Block(SBlock::ForRange(_, _, _, body, inv)) => checked_in(body, x) || mentions_bool(inv, x),
        SCommand::Block(SBlock::While(_, body, inv, _)) => checked_in(body, x) || mentions_bool(inv, x),
        _ => false,
    }
}

pub open spec fn checked_in_bodies(s: Seq<Seq<SCommand>>, x: Seq<char>) -> bool
    decreases s,
{
    if s.len() == 0 {
        false
    } else {
        checked_in(s[0], x) || checked_in_bodies(s.drop_first(), x)
    }
}

pub open spec fn checked_in(s: Seq<SCommand>, x: Seq<char>) -> bool
    decreases s,
{
    if s.len() == 0 {
        false
    } else {
        checked_in_cmd(s[0], x) || checked_in(s.drop_first(), x)
    }
}

proof fn lemma_undefined_values(s: Seq<SValue>, defs: Seq<Seq<char>>, funcs: Seq<Seq<char>>, x: Seq<char>)
    requires
        mentions_values(s, x),
        !defs.contains(x),
    ensures
        !defined_values(s, defs, funcs),
    decreases s, 0int,
{
    if mentions_values(s.drop_last(), x) {
        lemma_undefined_values(s.drop_last(), defs, funcs, x);
    } else {
        lemma_undefined_value(s.last(), defs, funcs, x);
    }
}

proof fn lemma_undefined_value(v: SValue, defs: Seq<Seq<char>>, funcs: Seq<Seq<char>>, x: Seq<char>)
    requires
        mentions_value(v, x),
        !defs.contains(x),
    ensures
        !defined_value(v, defs, funcs),
    decreases v, 1int,
{
    match v {
        SValue::Expr(e) => lemma_undefined_expr(e, defs, funcs, x),
        SValue::Bool(b) => lemma_undefined_bool(b, defs, funcs, x),
        SValue::Tuple(s) => lemma_undefined_values(s, defs, funcs, x),
        SValue::Array(s) => lemma_undefined_values(s, defs, funcs, x),
        SValue::FunctionCall(_, s) => lemma_undefined_values(s, defs, funcs, x),
        SValue::Dereference(y) => lemma_undefined_value(*y, defs, funcs, x),
        SValue::Reference(y) => lemma_undefined_value(*y, defs, funcs, x),
        SValue::ReferenceMutable(y) => lemma_undefined_value(*y, defs, funcs, x),
        SValue::Ternary(c, a, b) => {
            if mentions_bool(*c, x) {
                lemma_undefined_bool(*c, defs, funcs, x);
            } else if mentions_value(*a, x) {
                lemma_undefined_value(*a, defs, funcs, x);
            } else {
                lemma_undefined_value(*b, defs, funcs, x);
            }
        },
        _ => {},
    }
}

proof fn lemma_undefined_expr(e: SExpr, defs: Seq<Seq<char>>, funcs: Seq<Seq<char>>, x: Seq<char>)
    requires
        mentions_expr(e, x),
        !defs.contains(x),
    ensures
        !defined_expr(e, defs, funcs),
    decreases e, 1int,
{
    match e {
        SExpr::Value(v) => lemma_undefined_value(*v, defs, funcs, x),
        SExpr::Op(a, _, b) => {
            if mentions_expr(*a, x) {
                lemma_undefined_expr(*a, defs, funcs, x);
            } else {
                lemma_undefined_expr(*b, defs, funcs, x);
            }
        },
        _ => {},
    }
}

proof fn lemma_undefined_bool(b: SBool, defs: Seq<Seq<char>>, funcs: Seq<Seq<char>>, x: Seq<char>)
    requires
        mentions_bool(b, x),
        !defs.contains(x),
    ensures
        !defined_bool(b, defs, funcs),
    decreases b, 1int,
{
    match b {
        SBool::And(p, q) => {
            if mentions_bool(*p, x) {
                lemma_undefined_bool(*p, defs, funcs, x);
            } else {
                lemma_undefined_bool(*q, defs, funcs, x);
            }
        },
        SBool::Or(p, q) => {
            if mentions_bool(*p, x) {
                lemma_undefined_bool(*p, defs, funcs, x);
            } else {
                lemma_undefined_bool(*q, defs, funcs, x);
            }
        },
        SBool::Not(p) => lemma_undefined_bool(*p, defs, funcs, x),
        SBool::Value(v) => lemma_undefined_value(*v, defs, funcs, x),
        SBool::Equal(p, q) => {
            if mentions_expr(p, x) {
                lemma_undefined_expr(p, defs, funcs, x);
            } else {
                lemma_undefined_expr(q, defs, funcs, x);
            }
        },
        SBool::GreaterEqual(p, q) => {
            if mentions_expr(p, x) {
                lemma_undefined_expr(p, defs, funcs, x);
            } else {
                lemma_undefined_expr(q, defs, funcs, x);
            }
        },
        SBool::LowerEqual(p, q) => {
            if mentions_expr(p, x) {
                lemma_undefined_expr(p, defs, funcs, x);
            } else {
                lemma_undefined_expr(q, defs, funcs, x);
            }
        },
        SBool::GreaterThan(p, q) => {
            if mentions_expr(p, x) {
                lemma_undefined_expr(p, defs, funcs, x);
            } else {
                lemma_undefined_expr(q, defs, funcs, x);
            }
        },
        SBool::LowerThan(p, q) => {
            if mentions_expr(p, x) {
                lemma_undefined_expr(p, defs, funcs, x);
            } else {
                lemma_undefined_expr(q, defs, funcs, x);
            }
        },
        SBool::ForAll(u, p) => {
            lemma_push_other(defs, u, x);
            lemma_undefined_bool(*p, defs_push(defs, u), funcs, x);
        },
        SBool::Exists(u, p) => {
            lemma_push_other(defs, u, x);
            lemma_undefined_bool(*p, defs_push(defs, u), funcs, x);
        },
        _ => {},
    }
}

proof fn lemma_push_other(defs: Seq<Seq<char>>, u: SVariable, x: Seq<char>)
    requires
        !defs.contains(x),
        u != SVariable::Named(x),
    ensures
        !defs_push(defs, u).contains(x),
{
    match u {
        SVariable::Named(a) => {
            assert forall|j: int| 0 <= j < defs.push(a).len() implies defs.push(a)[j] != x by {
                if j < defs.len() {
                    assert(defs.push(a)[j] == defs[j]);
                }
            }
        },
        _ => {},
    }
}

proof fn lemma_tuple_defs_other(s: Seq<SCommand>, defs: Seq<Seq<char>>, x: Seq<char>)
    requires
        !defs.contains(x),
        forall|k: int| 0 <= k < s.len() ==> !#[trigger] element_binds(s[k], x),
    ensures
        !tuple_defs(s, defs).contains(x),
    decreases s.len(),
{
    if s.len() > 0 {
        assert(!element_binds(s[0], x));
        let d = match s[0] {
            SCommand::Binding(SBinding::Declaration(n, _, _)) => defs_push(defs, n),
            SCommand::Binding(SBinding::Assignment(n, _, _, _)) => defs_push(defs, n),
            _ => defs,
        };
        match s[0] {
            SCommand::Binding(SBinding::Declaration(n, _, _)) => lemma_push_other(defs, n, x),
            SCommand::Binding(SBinding::Assignment(n, _, _, _)) => lemma_push_other(defs, n, x),
            _ => {},
        }
        assert forall|k: int| 0 <= k < s.drop_first().len() implies !#[trigger] element_binds(s.drop_first()[k], x) by {
            assert(s.drop_first()[k] == s[k + 1]);
        }
        lemma_tuple_defs_other(s.drop_first(), d, x);
    }
}

proof fn lemma_undefined_cmd_keeps(c: SCommand, defs: Seq<Seq<char>>, funcs: Seq<Seq<char>>, x: Seq<char>)
    requires
        !defs.contains(x),
        !binds_name(c, x),
    ensures
        !undefined_cmd(c, defs, funcs).1.contains(x),
{
    match c {
        SCommand::Binding(SBinding::Declaration(n, _, _)) => lemma_push_other(defs, n, x),
        SCommand::Binding(SBinding::Assignment(n, _, _, _)) => lemma_push_other(defs, n, x),
        SCommand::Binding(SBinding::Tuple(s)) => lemma_tuple_defs_other(s, defs, x),
        _ => {},
    }
}

proof fn lemma_undefined_cmd(c: SCommand, defs: Seq<Seq<char>>, funcs: Seq<Seq<char>>, x: Seq<char>)
    requires
        checked_in_cmd(c, x),
        !declares_in_cmd(c, x),
        !defs.contains(x),
    ensures
        !undefined_cmd(c, defs, funcs).0,
    decreases c, 1int,
{
    match c {
        SCommand::ProveControl(SProveControl::Assert(b)) => lemma_undefined_bool(b, defs, funcs, x),
        SCommand::ProveControl(SProveControl::Assume(b)) => lemma_undefined_bool(b, defs, funcs, x),
        SCommand::Block(SBlock::If(_, bodies, el)) => {
            if checked_in_bodies(bodies, x) {
                lemma_undefined_bodies(bodies, defs, funcs, x);
            } else {
                lemma_undefined_cmds(el, defs, funcs, x);
            }
        },
        SCommand::Block(SBlock::ForRange(_, _, _, body, inv)) => {
            if checked_in(body, x) {
                lemma_undefined_cmds(body, defs, funcs, x);
            } else {
                lemma_undefined_bool(inv, defs, funcs, x);
            }
        },
        SCommand::Block(SBlock::While(_, body, inv, _)) => {
            if checked_in(body, x) {
                lemma_undefined_cmds(body, defs, funcs, x);
            } else {
                lemma_undefined_bool(inv, defs, funcs, x);
            }
        },
        _ => {},
    }
}

proof fn lemma_undefined_bodies(s: Seq<Seq<SCommand>>, defs: Seq<Seq<char>>, funcs: Seq<Seq<char>>, x: Seq<char>)
    requires
        checked_in_bodies(s, x),
        !declares_in_bodies(s, x),
        !defs.contains(x),
    ensures
        !undefined_bodies(s, defs, funcs),
    decreases s, 0int,
{
    if checked_in(s[0], x) {
        lemma_undefined_cmds(s[0], defs, funcs, x);
    } else {
        lemma_undefined_bodies(s.drop_first(), defs, funcs, x);
    }
}

proof fn lemma_undefined_cmds(s: Seq<SCommand>, defs: Seq<Seq<char>>, funcs: Seq<Seq<char>>, x: Seq<char>)
    requires
        checked_in(s, x),
        !declares_in(s, x),
        !defs.contains(x),
    ensures
        !undefined_cmds(s, defs, funcs).0,
    decreases s, 0int,
{
    if checked_in_cmd(s[0], x) {
        lemma_undefined_cmd(s[0], defs, funcs, x);
    } else {
        let (ok, d) = undefined_cmd(s[0], defs, funcs);
        if ok {
            assert(!declares_in_cmd(s[0], x));
            assert(!binds_name(s[0], x));
            lemma_undefined_cmd_keeps(s[0], defs, funcs, x);
            lemma_undefined_cmds(s.drop_first(), d, funcs, x);
        }
    }
}

/// `x` is neither a parameter's name nor a parameter's name followed by `'old`.
pub open spec fn not_a_parameter(input: Seq<SBinding>, x: Seq<char>) -> bool {
    forall|j: int| 0 <= j < input.len() ==> !(#[trigger] input[j] matches SBinding::Declaration(SVariable::Named(y), _, _)
        && (y == x || y + seq!['\'', 'o', 'l', 'd'] == x))
}

proof fn lemma_input_defs_other(s: Seq<SBinding>, x: Seq<char>)
    requires
        not_a_parameter(s, x),
    ensures
        !input_defs(s).contains(x),
    decreases s.len(),
{
    if s.len() > 0 {
        assert(not_a_parameter(s.drop_last(), x)) by {
            assert forall|j: int| 0 <= j < s.drop_last().len() implies !(#[trigger] s.drop_last()[j] matches SBinding::Declaration(SVariable::Named(y), _, _)
                && (y == x || y + seq!['\'', 'o', 'l', 'd'] == x)) by {
                assert(s.drop_last()[j] == s[j]);
            }
        }
        lemma_input_defs_other(s.drop_last(), x);
        let q = input_defs(s.drop_last());
        assert(!(s[s.len() - 1] matches SBinding::Declaration(SVariable::Named(y), _, _) && (y == x || y + seq!['\'', 'o', 'l', 'd'] == x)));
        match s.last() {
            SBinding::Declaration(SVariable::Named(y), _, _) => {
                assert(old_suffix() == seq!['\'', 'o', 'l', 'd']);
                let r = q.push(y).push(y + old_suffix());
                assert forall|j: int| 0 <= j < r.len() implies r[j] != x by {
                    if j < q.len() {
                        assert(r[j] == q[j]);
                    }
                }
            },
            _ => {},
        }
    }
}

proof fn lemma_undefined_funcs_fail(fs: Seq<SFunction>, names: Seq<Seq<char>>, i: int)
    requires
        0 <= i < fs.len(),
        inputs_named(fs[i].input) ==> !undefined_cmds(fs[i].content, input_defs(fs[i].input), names).0,
    ensures
        undefined_funcs(fs, names) != Some(true),
    decreases fs.len(),
{
    if i > 0 && inputs_named(fs[0].input) && undefined_cmds(fs[0].content, input_defs(fs[0].input), names).0 {
        assert(fs.drop_first()[i - 1] == fs[i]);
        lemma_undefined_funcs_fail(fs.drop_first(), names, i - 1);
    }
}

/// An assertion, an assumption or a loop invariant, anywhere in a
/// function's body, that uses a name which is no parameter (nor a
/// parameter's `'old` name) and which the body never declares makes the
/// program invalid.
pub proof fn law_undefined_name_refused(p: SProgram, i: int, x: Seq<char>)
    requires
        0 <= i < p.content.len(),
        checked_in(p.content[i].content, x),
        !declares_in(p.content[i].content, x),
        not_a_parameter(p.content[i].input, x),
    ensures
        !validate_spec(p),
{
    let f = p.content[i];
    lemma_input_defs_other(f.input, x);
    lemma_undefined_cmds(f.content, input_defs(f.input), function_names(p.content), x);
    lemma_undefined_funcs_fail(p.content, function_names(p.content), i);
}

} // verus!
