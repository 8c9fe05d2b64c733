//! Infers the types of bindings that were written without one, from the
//! values that they are given.
use vstd::prelude::*;
use crate::ast::{
    Binding, Block, Bool, Command, Function, Program, SBinding, SBlock, SCommand, SFunction, SProgram, SType,
    SValue, SVariable, Type, Value, Variable, m_cmds, m_func,
};
use crate::copying::{copy_cmd, copy_cmds, copy_type, copy_var, copy_bindings, copy_bool, copy_string, copy_value};
use crate::equality::{eq_cmd, eq_cmds, eq_string, eq_var};

verus! {

/// The types known for variables: later entries replace earlier ones.
pub struct TypeMap {
    entries: Vec<(Variable, Type)>,
}

pub open spec fn entries_map(s: Seq<(Variable, Type)>) -> Map<SVariable, SType>
    decreases s.len(),
{
    if s.len() == 0 {
        Map::empty()
    } else {
        entries_map(s.drop_last()).insert(s.last().0@, s.last().1@)
    }
}

impl View for TypeMap {
    type V = Map<SVariable, SType>;

    closed spec fn view(&self) -> Map<SVariable, SType> {
        entries_map(self.entries@)
    }
}

impl TypeMap {
    pub fn new() -> (r: TypeMap)
        ensures
            r@ == Map::<SVariable, SType>::empty(),
    {
        TypeMap { entries: Vec::new() }
    }

    /// The type of `k`, if one is known.
    pub fn get(&self, k: &Variable) -> (r: Option<&Type>)
        ensures
            r matches Some(t) ==> self@.contains_key(k@) && self@[k@] == t@,
            r is None ==> !self@.contains_key(k@),
    {
        let mut i: usize = self.entries.len();
        proof {
            assert(self.entries@.take(i as int) =~= self.entries@);
        }
        while i > 0
            invariant
                i <= self.entries@.len(),
                entries_map(self.entries@).contains_key(k@) == entries_map(self.entries@.take(i as int)).contains_key(k@),
                entries_map(self.entries@).contains_key(k@) ==> entries_map(self.entries@)[k@] == entries_map(self.entries@.take(i as int))[k@],
            decreases i,
        {
            proof {
                assert(self.entries@.take(i as int).drop_last() =~= self.entries@.take(i - 1));
                assert(self.entries@.take(i as int).last() == self.entries@[i - 1]);
            }
            if eq_var(&self.entries[i - 1].0, k) {
                return Some(&self.entries[i - 1].1);
            }
            i = i - 1;
        }
        proof {
            assert(self.entries@.take(0) =~= Seq::<(Variable, Type)>::empty());
        }
        None
    }

    /// Sets the type of `k`, replacing the one known before.
    pub fn insert(&mut self, k: Variable, t: Type)
        ensures
            final(self)@ == old(self)@.insert(k@, t@),
    {
        self.entries.push((k, t));
        proof {
            assert(self.entries@.drop_last() =~= old(self).entries@);
        }
    }
}

/// The output type of the first function named `n`.
pub open spec fn func_output(funcs: Seq<SFunction>, n: Seq<char>) -> Option<SType>
    decreases funcs.len(),
{
    if funcs.len() == 0 {
        None
    } else if funcs[0].name == n {
        Some(funcs[0].output)
    } else {
        func_output(funcs.drop_first(), n)
    }
}

/// The type of the first element whose type is known (`None` where an
/// element has no type, or none is known).
pub open spec fn first_known_type(s: Seq<SValue>, state: Map<SVariable, SType>, funcs: Seq<SFunction>) -> Option<SType>
    decreases s,
{
    if s.len() == 0 {
        None
    } else {
        match type_of_val(s[0], state, funcs) {
            None => None,
            Some(SType::Unknown) => first_known_type(s.drop_first(), state, funcs),
            Some(t) => Some(t),
        }
    }
}

pub open spec fn types_of_values(s: Seq<SValue>, state: Map<SVariable, SType>, funcs: Seq<SFunction>) -> Option<Seq<SType>>
    decreases s,
{
    if s.len() == 0 {
        Some(Seq::empty())
    } else {
        match (type_of_val(s[0], state, funcs), types_of_values(s.drop_first(), state, funcs)) {
            (Some(t), Some(ts)) => Some(seq![t] + ts),
            _ => None,
        }
    }
}

/// The type of a value, given the types of the variables and the functions;
/// `None` for values that have no type (an array with no element of known
/// type, a dereference of what is not a reference, a call of an unknown
/// function, and the values that carry no type).
pub open spec fn type_of_val(v: SValue, state: Map<SVariable, SType>, funcs: Seq<SFunction>) -> Option<SType>
    decreases v,
{
    match v {
        SValue::Bool(_) => Some(SType::Bool),
        SValue::Expr(_) => Some(SType::I32),
        SValue::Variable(x) => Some(if state.contains_key(x) { state[x] } else { SType::Unknown }),
        SValue::Array(s) => match first_known_type(s, state, funcs) {
            Some(t) => Some(SType::Array(Box::new(t), s.len() as i32)),
            None => None,
        },
        SValue::Tuple(s) => match types_of_values(s, state, funcs) {
            Some(ts) => Some(SType::Tuple(ts)),
            None => None,
        },
        SValue::Dereference(x) => match *x {
            SValue::Reference(y) => type_of_val(*y, state, funcs),
            SValue::ReferenceMutable(y) => type_of_val(*y, state, funcs),
            _ => None,
        },
        SValue::FunctionCall(n, _) => func_output(funcs, n),
        SValue::Reference(x) => match type_of_val(*x, state, funcs) {
            Some(t) => Some(SType::Reference(Box::new(t))),
            None => None,
        },
        SValue::ReferenceMutable(x) => match type_of_val(*x, state, funcs) {
            Some(t) => Some(SType::ReferenceMutable(Box::new(t))),
            None => None,
        },
        _ => None,
    }
}

pub open spec fn m_funcs(fs: Seq<Function>) -> Seq<SFunction> {
    fs.map_values(|f: Function| f@)
}

fn output_of(funcs: &Vec<Function>, n: &String) -> (r: Option<Type>)
    ensures
        r matches Some(t) ==> func_output(m_funcs(funcs@), n@) == Some(t@),
        r is None ==> func_output(m_funcs(funcs@), n@) is None,
{
    let ghost fs = m_funcs(funcs@);
    let mut i: usize = 0;
    proof {
        assert(fs.skip(0) =~= fs);
    }
    while i < funcs.len()
        invariant
            i <= funcs.len(),
            fs == m_funcs(funcs@),
            func_output(fs, n@) == func_output(fs.skip(i as int), n@),
        decreases funcs.len() - i,
    {
        proof {
            assert(fs.skip(i as int).drop_first() =~= fs.skip(i + 1));
            assert(fs.skip(i as int)[0] == funcs@[i as int]@);
        }
        if eq_string(&funcs[i].name, n) {
            return Some(copy_type(&funcs[i].output));
        }
        i = i + 1;
    }
    proof {
        assert(fs.skip(funcs@.len() as int) =~= Seq::<SFunction>::empty());
    }
    None
}

fn try_type_val(val: &Value, state: &TypeMap, funcs: &Vec<Function>) -> (r: Option<Type>)
    ensures
        r matches Some(t) ==> type_of_val(val@, state@, m_funcs(funcs@)) == Some(t@),
        r is None ==> type_of_val(val@, state@, m_funcs(funcs@)) is None,
    decreases val,
{
    match val {
        Value::Bool(_) => Some(Type::Bool),
        Value::Expr(_) => Some(Type::I32),
        Value::Variable(x) => {
            let r = match state.get(x) {
                Some(t) => Some(copy_type(t)),
                None => Some(Type::Unknown),
            };
            proof {
                assert(val@ == SValue::Variable(x@));
            }
            r
        },
        Value::Array(v) => {
            let ghost sv = val@->Array_0;
            let mut i: usize = 0;
            proof {
                assert(sv.skip(0) =~= sv);
            }
            #[verifier::loop_isolation(false)]
            while i < v.len()
                invariant
                    i <= v.len(),
                    first_known_type(sv, state@, m_funcs(funcs@)) == first_known_type(sv.skip(i as int), state@, m_funcs(funcs@)),
                decreases v.len() - i,
            {
                assert(decreases_to!(val => v@[i as int]));
                proof {
                    assert(sv.skip(i as int).drop_first() =~= sv.skip(i + 1));
                    assert(sv.skip(i as int)[0] == v@[i as int]@);
                }
                match try_type_val(&v[i], state, funcs) {
                    None => {
                        return None;
                    },
                    Some(Type::Unknown) => {},
                    Some(t) => {
                        return Some(Type::Array(Box::new(t), v.len() as i32));
                    },
                }
                i = i + 1;
            }
            proof {
                assert(sv.skip(v@.len() as int) =~= Seq::<SValue>::empty());
                assert(first_known_type(sv, state@, m_funcs(funcs@)) is None);
                assert(type_of_val(val@, state@, m_funcs(funcs@)) is None);
            }
            None
        },
        Value::Tuple(v) => {
            let ghost sv = val@->Tuple_0;
            let mut types: Vec<Type> = Vec::new();
            let mut i: usize = 0;
            #[verifier::loop_isolation(false)]
            while i < v.len()
                invariant
                    i <= v.len(),
                    types@.len() == i,
                    types_of_values(sv.take(i as int), state@, m_funcs(funcs@)) == Some(types@.map_values(|t: Type| t@)),
                decreases v.len() - i,
            {
                assert(decreases_to!(val => v@[i as int]));
                match try_type_val(&v[i], state, funcs) {
                    None => {
                        proof {
                            lemma_types_of_values_none(sv, i as int, state@, m_funcs(funcs@));
                        }
                        return None;
                    },
                    Some(t) => {
                        proof {
                            lemma_types_of_values_push(sv, i as int, state@, m_funcs(funcs@));
                        }
                        types.push(t);
                        proof {
                            assert(types@.map_values(|t: Type| t@) =~= types@.drop_last().map_values(|t: Type| t@).push(t@));
                        }
                    },
                }
                i = i + 1;
            }
            proof {
                assert(sv.take(v@.len() as int) =~= sv);
            }
            let r = Type::Tuple(types);
            proof {
                assert(r@->Tuple_0 =~= types@.map_values(|t: Type| t@));
                assert(type_of_val(val@, state@, m_funcs(funcs@)) == Some(r@));
            }
            Some(r)
        },
        Value::Dereference(x) => {
            let inner: &Value = x;
            proof {
                assert(val@ == SValue::Dereference(Box::new(inner@)));
            }
            match inner {
                Value::Reference(y) => try_type_val(y, state, funcs),
                Value::ReferenceMutable(y) => try_type_val(y, state, funcs),
                _ => {
                    proof {
                        assert(!(inner@ is Reference) && !(inner@ is ReferenceMutable));
                    }
                    None
                },
            }
        },
        Value::FunctionCall(n, _) => output_of(funcs, n),
        Value::Reference(x) => match try_type_val(x, state, funcs) {
            Some(t) => Some(Type::Reference(Box::new(t))),
            None => None,
        },
        Value::ReferenceMutable(x) => match try_type_val(x, state, funcs) {
            Some(t) => Some(Type::ReferenceMutable(Box::new(t))),
            None => None,
        },
        _ => None,
    }
}

proof fn lemma_types_of_values_push(s: Seq<SValue>, i: int, state: Map<SVariable, SType>, funcs: Seq<SFunction>)
    requires
        0 <= i < s.len(),
        types_of_values(s.take(i), state, funcs) is Some,
        type_of_val(s[i], state, funcs) is Some,
    ensures
        types_of_values(s.take(i + 1), state, funcs) == Some(
            types_of_values(s.take(i), state, funcs)->Some_0.push(type_of_val(s[i], state, funcs)->Some_0),
        ),
    decreases i,
{
    if i == 0 {
        assert(s.take(1).drop_first() =~= Seq::<SValue>::empty());
        assert(types_of_values(s.take(1), state, funcs) == Some(seq![type_of_val(s[0], state, funcs)->Some_0] + Seq::<SType>::empty()));
        assert(seq![type_of_val(s[0], state, funcs)->Some_0] + Seq::<SType>::empty() =~= Seq::<SType>::empty().push(type_of_val(s[0], state, funcs)->Some_0));
        assert(types_of_values(s.take(0), state, funcs) == Some(Seq::<SType>::empty())) by {
            assert(s.take(0) =~= Seq::<SValue>::empty());
        }
    } else {
        let t = s.drop_first();
        assert(s.take(i).drop_first() =~= t.take(i - 1));
        assert(s.take(i + 1).drop_first() =~= t.take(i));
        assert(s.take(i)[0] == s[0]);
        assert(s.take(i + 1)[0] == s[0]);
        lemma_types_of_values_push(t, i - 1, state, funcs);
        let a = types_of_values(t.take(i - 1), state, funcs)->Some_0;
        let x = type_of_val(s[i], state, funcs)->Some_0;
        let h = type_of_val(s[0], state, funcs)->Some_0;
        assert(seq![h] + a.push(x) =~= (seq![h] + a).push(x));
    }
}

proof fn lemma_types_of_values_none(s: Seq<SValue>, i: int, state: Map<SVariable, SType>, funcs: Seq<SFunction>)
    requires
        0 <= i < s.len(),
        type_of_val(s[i], state, funcs) is None,
    ensures
        types_of_values(s, state, funcs) is None,
    decreases i,
{
    if i > 0 {
        lemma_types_of_values_none(s.drop_first(), i - 1, state, funcs);
    }
}

/// The type of a value, given the types of the variables and the functions.
pub fn find_type_val(val: &Value, state: &TypeMap, funcs: &Vec<Function>) -> (r: Type)
    requires
        type_of_val(val@, state@, m_funcs(funcs@)) is Some,
    ensures
        type_of_val(val@, state@, m_funcs(funcs@)) == Some(r@),
{
    match try_type_val(val, state, funcs) {
        Some(t) => t,
        None => Type::Unknown,
    }
}

// ------------------------------------------------------------------
// Bindings whose type is not known yet.
// ------------------------------------------------------------------
/// A binding that leaves a type unknown (also inside a tuple binding).
pub open spec fn unknown_single(c: SCommand) -> bool
    decreases c,
{
    match c {
        SCommand::Binding(SBinding::Assignment(_, t, _, _)) => t == SType::Unknown,
        SCommand::Binding(SBinding::Declaration(_, t, _)) => t == SType::Unknown,
        SCommand::Binding(SBinding::Tuple(s)) => unknown_any(s),
        _ => false,
    }
}

pub open spec fn unknown_any(s: Seq<SCommand>) -> bool
    decreases s,
{
    s.len() > 0 && (unknown_single(s[0]) || unknown_any(s.drop_first()))
}

/// Whether `unknown_type_bindings` keeps the command: a binding that leaves
/// a type unknown, or a block that holds one.
pub open spec fn kept(c: SCommand) -> bool
    decreases c,
{
    match c {
        SCommand::Block(SBlock::If(_, bodies, el)) => bodies_unknown(bodies) || unknown_bindings(el).len() > 0,
        SCommand::Block(SBlock::ForRange(_, _, _, body, _)) => unknown_bindings(body).len() > 0,
        SCommand::Block(SBlock::While(_, body, _, _)) => unknown_bindings(body).len() > 0,
        _ => unknown_single(c),
    }
}

pub open spec fn bodies_unknown(s: Seq<Seq<SCommand>>) -> bool
    decreases s,
{
    s.len() > 0 && (unknown_bindings(s[0]).len() > 0 || bodies_unknown(s.drop_first()))
}

/// The commands that `kept` keeps, in order.
pub open spec fn unknown_bindings(s: Seq<SCommand>) -> Seq<SCommand>
    decreases s,
{
    if s.len() == 0 {
        Seq::empty()
    } else {
        (if kept(s[0]) { seq![s[0]] } else { Seq::empty() }) + unknown_bindings(s.drop_first())
    }
}

/// Returns the command when it is a binding that leaves a type unknown.
pub fn unknown_type_single(input: Command) -> (r: Option<Command>)
    ensures
        r matches Some(c) ==> c@ == input@ && unknown_single(input@),
        r is None ==> !unknown_single(input@),
{
    if unknown_single_exec(&input) {
        Some(input)
    } else {
        None
    }
}

fn unknown_single_exec(c: &Command) -> (r: bool)
    ensures
        r == unknown_single(c@),
    decreases c,
{
    match c {
        Command::Binding(Binding::Assignment(_, t, _, _)) => match t {
            Type::Unknown => true,
            _ => false,
        },
        Command::Binding(Binding::Declaration(_, t, _)) => match t {
            Type::Unknown => true,
            _ => false,
        },
        Command::Binding(Binding::Tuple(binds)) => {
            let ghost sv = m_cmds(binds@);
            let mut i: usize = 0;
            proof {
                assert(sv.skip(0) =~= sv);
                assert(c@->Binding_0->Tuple_0 =~= sv);
            }
            #[verifier::loop_isolation(false)]
            while i < binds.len()
                invariant
                    i <= binds.len(),
                    unknown_any(sv) == unknown_any(sv.skip(i as int)),
                decreases binds.len() - i,
            {
                assert(decreases_to!(c => binds@[i as int]));
                proof {
                    assert(sv.skip(i as int).drop_first() =~= sv.skip(i + 1));
                    assert(sv.skip(i as int)[0] == binds@[i as int]@);
                }
                if unknown_single_exec(&binds[i]) {
                    return true;
                }
                i = i + 1;
            }
            proof {
                assert(sv.skip(binds@.len() as int) =~= Seq::<SCommand>::empty());
            }
            false
        },
        _ => false,
    }
}

fn kept_exec(c: &Command) -> (r: bool)
    ensures
        r == kept(c@),
    decreases c,
{
    match c {
        Command::Block(Block::If(_, bodies, el)) => {
            let ghost sb = c@->Block_0->If_1;
            let mut i: usize = 0;
            proof {
                assert(sb.skip(0) =~= sb);
            }
            #[verifier::loop_isolation(false)]
            while i < bodies.len()
                invariant
                    i <= bodies.len(),
                    bodies_unknown(sb) == bodies_unknown(sb.skip(i as int)),
                decreases bodies.len() - i,
            {
                assert(decreases_to!(c => bodies@[i as int]));
                proof {
                    assert(sb.skip(i as int).drop_first() =~= sb.skip(i + 1));
                    assert(sb.skip(i as int)[0] =~= m_cmds(bodies@[i as int]@));
                }
                let t = unknown_bindings_of(&bodies[i]);
                if t.len() > 0 {
                    return true;
                }
                i = i + 1;
            }
            proof {
                assert(sb.skip(bodies@.len() as int) =~= Seq::<Seq<SCommand>>::empty());
                assert(c@->Block_0->If_2 =~= m_cmds(el@));
            }
            let t = unknown_bindings_of(el);
            t.len() > 0
        },
        Command::Block(Block::ForRange(_, _, _, body, _)) => {
            proof {
                assert(c@->Block_0->ForRange_3 =~= m_cmds(body@));
            }
            let t = unknown_bindings_of(body);
            t.len() > 0
        },
        Command::Block(Block::While(_, body, _, _)) => {
            proof {
                assert(c@->Block_0->While_1 =~= m_cmds(body@));
            }
            let t = unknown_bindings_of(body);
            t.len() > 0
        },
        _ => unknown_single_exec(c),
    }
}

fn unknown_bindings_of(input: &Vec<Command>) -> (r: Vec<Command>)
    ensures
        m_cmds(r@) == unknown_bindings(m_cmds(input@)),
    decreases input,
{
    let ghost sv = m_cmds(input@);
    let mut r: Vec<Command> = Vec::new();
    let mut i: usize = 0;
    proof {
        assert(sv.skip(0) =~= sv);
        assert(m_cmds(r@) =~= Seq::<SCommand>::empty());
    }
    while i < input.len()
        invariant
            i <= input.len(),
            sv == m_cmds(input@),
            unknown_bindings(sv) == m_cmds(r@) + unknown_bindings(sv.skip(i as int)),
        decreases input.len() - i,
    {
        assert(decreases_to!(input => input@[i as int]));
        proof {
            assert(sv.skip(i as int).drop_first() =~= sv.skip(i + 1));
            assert(sv.skip(i as int)[0] == input@[i as int]@);
        }
        let ghost before = r@;
        if kept_exec(&input[i]) {
            r.push(copy_cmd(&input[i]));
            proof {
                assert(m_cmds(r@) =~= m_cmds(before).push(input@[i as int]@));
                assert(m_cmds(before) + unknown_bindings(sv.skip(i as int)) =~= m_cmds(r@) + unknown_bindings(sv.skip(i + 1)));
            }
        } else {
            proof {
                assert(unknown_bindings(sv.skip(i as int)) =~= unknown_bindings(sv.skip(i + 1)));
            }
        }
        i = i + 1;
    }
    proof {
        assert(sv.skip(input@.len() as int) =~= Seq::<SCommand>::empty());
        assert(unknown_bindings(sv) =~= m_cmds(r@));
    }
    r
}

/// The bindings of `input` (or blocks holding one) that leave a type unknown.
pub fn unknown_type_bindings(input: Vec<Command>) -> (r: Vec<Command>)
    ensures
        m_cmds(r@) == unknown_bindings(m_cmds(input@)),
{
    unknown_bindings_of(&input)
}

// ------------------------------------------------------------------
// One step of inference, and the iteration to a fixpoint.
// ------------------------------------------------------------------
/// The types of the parameters; `None` where a parameter is not a declaration.
pub open spec fn input_state(s: Seq<SBinding>) -> Option<Map<SVariable, SType>>
    decreases s.len(),
{
    if s.len() == 0 {
        Some(Map::empty())
    } else {
        match (input_state(s.drop_last()), s.last()) {
            (Some(m), SBinding::Declaration(n, t, _)) => Some(m.insert(n, t)),
            _ => None,
        }
    }
}

/// The types that the elements of a tuple binding give; `None` where an
/// element is not a binding.
pub open spec fn tuple_state(s: Seq<SCommand>, state: Map<SVariable, SType>) -> Option<Map<SVariable, SType>>
    decreases s.len(),
{
    if s.len() == 0 {
        Some(state)
    } else {
        match s[0] {
            SCommand::Binding(SBinding::Assignment(n, t, _, _)) => tuple_state(s.drop_first(), state.insert(n, t)),
            SCommand::Binding(SBinding::Declaration(n, t, _)) => tuple_state(s.drop_first(), state.insert(n, t)),
            _ => None,
        }
    }
}

/// One step of inference over a command list: the assignment bindings in
/// `to_check` get the type of their value; the other bindings record the
/// types of their names. `None` where inference stops: a block or a
/// non-binding in `to_check`, a value without a type, a nested tuple.
pub open spec fn simplify_cmds(
    s: Seq<SCommand>,
    state: Map<SVariable, SType>,
    funcs: Seq<SFunction>,
    to_check: Seq<SCommand>,
) -> Option<Seq<SCommand>>
    decreases s.len(),
{
    if s.len() == 0 {
        Some(Seq::empty())
    } else {
        let c = s[0];
        if to_check.contains(c) {
            match c {
                SCommand::Binding(SBinding::Assignment(n, _, v, m)) => match (
                    type_of_val(v, state, funcs),
                    simplify_cmds(s.drop_first(), state, funcs, to_check),
                ) {
                    (Some(ty), Some(rest)) => Some(seq![SCommand::Binding(SBinding::Assignment(n, ty, v, m))] + rest),
                    _ => None,
                },
                SCommand::Binding(_) => match simplify_cmds(s.drop_first(), state, funcs, to_check) {
                    Some(rest) => Some(seq![c] + rest),
                    None => None,
                },
                _ => None,
            }
        } else {
            let next = match c {
                SCommand::Binding(SBinding::Assignment(n, t, _, _)) => Some(state.insert(n, t)),
                SCommand::Binding(SBinding::Declaration(n, t, _)) => Some(state.insert(n, t)),
                SCommand::Binding(SBinding::Tuple(binds)) => tuple_state(binds, state),
                _ => Some(state),
            };
            match next {
                Some(st) => match simplify_cmds(s.drop_first(), st, funcs, to_check) {
                    Some(rest) => Some(seq![c] + rest),
                    None => None,
                },
                None => None,
            }
        }
    }
}

pub open spec fn simplify_val(f: SFunction, funcs: Seq<SFunction>, to_check: Seq<SCommand>) -> Option<SFunction> {
    match input_state(f.input) {
        Some(st) => match simplify_cmds(f.content, st, funcs, to_check) {
            Some(c) => Some(SFunction { content: c, ..f }),
            None => None,
        },
        None => None,
    }
}

proof fn lemma_unknown_contains(cs: Seq<SCommand>, x: SCommand)
    ensures
        unknown_bindings(cs).contains(x) <==> (cs.contains(x) && kept(x)),
    decreases cs.len(),
{
    if cs.len() > 0 {
        lemma_unknown_contains(cs.drop_first(), x);
        let head: Seq<SCommand> = if kept(cs[0]) { seq![cs[0]] } else { Seq::empty() };
        assert(unknown_bindings(cs) == head + unknown_bindings(cs.drop_first()));
        if unknown_bindings(cs).contains(x) {
            let k = choose|k: int| 0 <= k < unknown_bindings(cs).len() && unknown_bindings(cs)[k] == x;
            if k < head.len() {
                assert(cs[0] == x);
            } else {
                assert(unknown_bindings(cs.drop_first())[k - head.len()] == x);
                let j = choose|j: int| 0 <= j < cs.drop_first().len() && cs.drop_first()[j] == x;
                assert(cs[j + 1] == x);
            }
        }
        if cs.contains(x) && kept(x) {
            let j = choose|j: int| 0 <= j < cs.len() && cs[j] == x;
            if j == 0 {
                assert((head + unknown_bindings(cs.drop_first()))[0] == x);
            } else {
                assert(cs.drop_first()[j - 1] == x);
                let k = choose|k: int| 0 <= k < unknown_bindings(cs.drop_first()).len() && unknown_bindings(cs.drop_first())[k] == x;
                assert((head + unknown_bindings(cs.drop_first()))[k + head.len()] == x);
            }
        }
    } else {
        assert(unknown_bindings(cs) =~= Seq::<SCommand>::empty());
    }
}

/// One step of inference never adds a binding with an unknown type, and
/// when it removes none the commands are unchanged.
proof fn lemma_step(cs: Seq<SCommand>, state: Map<SVariable, SType>, funcs: Seq<SFunction>, tc: Seq<SCommand>)
    requires
        forall|i: int| 0 <= i < cs.len() ==> (tc.contains(#[trigger] cs[i]) <==> kept(cs[i])),
        simplify_cmds(cs, state, funcs, tc) is Some,
    ensures
        unknown_bindings(simplify_cmds(cs, state, funcs, tc)->Some_0).len() <= unknown_bindings(cs).len(),
        unknown_bindings(simplify_cmds(cs, state, funcs, tc)->Some_0).len() == unknown_bindings(cs).len()
            ==> simplify_cmds(cs, state, funcs, tc)->Some_0 == cs,
    decreases cs.len(),
{
    if cs.len() == 0 {
        return;
    }
    let c = cs[0];
    let cs2 = simplify_cmds(cs, state, funcs, tc)->Some_0;
    let rest = cs.drop_first();
    assert forall|i: int| 0 <= i < rest.len() implies (tc.contains(#[trigger] rest[i]) <==> kept(rest[i])) by {
        assert(rest[i] == cs[i + 1]);
    }
    assert(tc.contains(cs[0]) <==> kept(cs[0]));
    let st = if tc.contains(c) {
        state
    } else {
        match c {
            SCommand::Binding(SBinding::Assignment(n, t, _, _)) => state.insert(n, t),
            SCommand::Binding(SBinding::Declaration(n, t, _)) => state.insert(n, t),
            SCommand::Binding(SBinding::Tuple(binds)) => tuple_state(binds, state)->Some_0,
            _ => state,
        }
    };
    let rest2 = simplify_cmds(rest, st, funcs, tc)->Some_0;
    lemma_step(rest, st, funcs, tc);
    let c2 = cs2[0];
    assert(cs2 == seq![c2] + rest2);
    assert(cs2.drop_first() =~= rest2);
    assert(kept(c2) ==> c2 == c && kept(c)) by {
        if tc.contains(c) {
            match c {
                SCommand::Binding(SBinding::Assignment(n, t, v, m)) => {
                    assert(t == SType::Unknown);
                },
                _ => {},
            }
        }
    }
    assert(!kept(c) ==> c2 == c);
    assert(unknown_bindings(cs2) == (if kept(c2) { seq![c2] } else { Seq::<SCommand>::empty() }) + unknown_bindings(rest2));
    assert(unknown_bindings(cs) == (if kept(c) { seq![c] } else { Seq::<SCommand>::empty() }) + unknown_bindings(rest));
    if unknown_bindings(cs2).len() == unknown_bindings(cs).len() {
        assert(cs2 =~= cs) by {
            assert(rest2 == rest);
            assert(c2 == c);
            assert(cs =~= seq![c] + rest);
        }
    }
}

/// Iterates the inference step from `f` until the list of bindings with an
/// unknown type stops changing.
pub open spec fn simplify_fix(f: SFunction, funcs: Seq<SFunction>, last: Seq<SCommand>, tc: Seq<SCommand>) -> Option<SFunction>
    decreases 2 * tc.len() + (if last == tc { 0int } else { 1int }),
    when tc == unknown_bindings(f.content)
    via simplify_fix_decreases
{
    if last == tc {
        Some(f)
    } else {
        match simplify_val(f, funcs, tc) {
            Some(f2) => simplify_fix(f2, funcs, tc, unknown_bindings(f2.content)),
            None => None,
        }
    }
}

#[via_fn]
proof fn simplify_fix_decreases(f: SFunction, funcs: Seq<SFunction>, last: Seq<SCommand>, tc: Seq<SCommand>) {
    if tc == unknown_bindings(f.content) && last != tc {
        if let Some(f2) = simplify_val(f, funcs, tc) {
            lemma_fix_step(f, funcs, tc);
        }
    }
}

proof fn lemma_fix_step(f: SFunction, funcs: Seq<SFunction>, tc: Seq<SCommand>)
    requires
        tc == unknown_bindings(f.content),
        simplify_val(f, funcs, tc) is Some,
    ensures
        unknown_bindings(simplify_val(f, funcs, tc)->Some_0.content).len() <= tc.len(),
        unknown_bindings(simplify_val(f, funcs, tc)->Some_0.content).len() == tc.len()
            ==> unknown_bindings(simplify_val(f, funcs, tc)->Some_0.content) == tc,
        unknown_bindings(simplify_val(f, funcs, tc)->Some_0.content).len() == tc.len()
            ==> simplify_val(f, funcs, tc)->Some_0 == f,
{
    let cs = f.content;
    assert forall|i: int| 0 <= i < cs.len() implies (tc.contains(#[trigger] cs[i]) <==> kept(cs[i])) by {
        lemma_unknown_contains(cs, cs[i]);
    }
    lemma_step(cs, input_state(f.input)->Some_0, funcs, tc);
}

/// What inference gives for a function: `None` where it stops.
pub open spec fn simplify_function_spec(f: SFunction, funcs: Seq<SFunction>) -> Option<SFunction> {
    simplify_fix(f, funcs, Seq::empty(), unknown_bindings(f.content))
}

pub open spec fn prepend_opt(a: Seq<SCommand>, b: Option<Seq<SCommand>>) -> Option<Seq<SCommand>> {
    match b {
        Some(x) => Some(a + x),
        None => None,
    }
}

fn contains_cmd(v: &Vec<Command>, c: &Command) -> (r: bool)
    ensures
        r == m_cmds(v@).contains(c@),
{
    let mut i: usize = 0;
    while i < v.len()
        invariant
            i <= v.len(),
            forall|j: int| 0 <= j < i ==> v@[j]@ != c@,
        decreases v.len() - i,
    {
        if eq_cmd(&v[i], c) {
            proof {
                assert(m_cmds(v@)[i as int] == c@);
            }
            return true;
        }
        i = i + 1;
    }
    proof {
        if m_cmds(v@).contains(c@) {
            let k = choose|k: int| 0 <= k < m_cmds(v@).len() && m_cmds(v@)[k] == c@;
            assert(v@[k]@ == c@);
        }
    }
    false
}

fn input_types(input: &Vec<Binding>) -> (r: Option<TypeMap>)
    ensures
        r matches Some(m) ==> input_state(input@.map_values(|b: Binding| b@)) == Some(m@),
        r is None ==> input_state(input@.map_values(|b: Binding| b@)) is None,
{
    let ghost sv = input@.map_values(|b: Binding| b@);
    let mut state = TypeMap::new();
    let mut i: usize = 0;
    proof {
        assert(sv.take(0) =~= Seq::<SBinding>::empty());
    }
    while i < input.len()
        invariant
            i <= input.len(),
            sv == input@.map_values(|b: Binding| b@),
            input_state(sv.take(i as int)) == Some(state@),
        decreases input.len() - i,
    {
        proof {
            assert(sv.take(i + 1).drop_last() =~= sv.take(i as int));
            assert(sv.take(i + 1).last() == input@[i as int]@);
        }
        match &input[i] {
            Binding::Declaration(name, t, _) => {
                state.insert(copy_var(name), copy_type(t));
            },
            _ => {
                proof {
                    lemma_input_state_none(sv, i as int + 1);
                }
                return None;
            },
        }
        i = i + 1;
    }
    proof {
        assert(sv.take(input@.len() as int) =~= sv);
    }
    Some(state)
}

proof fn lemma_input_state_none(s: Seq<SBinding>, k: int)
    requires
        0 <= k <= s.len(),
        input_state(s.take(k)) is None,
    ensures
        input_state(s) is None,
    decreases s.len() - k,
{
    if k < s.len() {
        assert(s.take(k + 1).drop_last() =~= s.take(k));
        lemma_input_state_none(s, k + 1);
    } else {
        assert(s.take(k) =~= s);
    }
}

fn tuple_types(binds: &Vec<Command>, state: &mut TypeMap) -> (r: bool)
    ensures
        r ==> tuple_state(m_cmds(binds@), old(state)@) == Some(final(state)@),
        !r ==> tuple_state(m_cmds(binds@), old(state)@) is None,
{
    let ghost sv = m_cmds(binds@);
    let mut i: usize = 0;
    proof {
        assert(sv.skip(0) =~= sv);
    }
    while i < binds.len()
        invariant
            i <= binds.len(),
            sv == m_cmds(binds@),
            tuple_state(sv, old(state)@) == tuple_state(sv.skip(i as int), state@),
        decreases binds.len() - i,
    {
        proof {
            assert(sv.skip(i as int).drop_first() =~= sv.skip(i + 1));
            assert(sv.skip(i as int)[0] == binds@[i as int]@);
        }
        match &binds[i] {
            Command::Binding(Binding::Assignment(name, t, _, _)) => {
                state.insert(copy_var(name), copy_type(t));
            },
            Command::Binding(Binding::Declaration(name, t, _)) => {
                state.insert(copy_var(name), copy_type(t));
            },
            _ => {
                return false;
            },
        }
        i = i + 1;
    }
    proof {
        assert(sv.skip(binds@.len() as int) =~= Seq::<SCommand>::empty());
    }
    true
}

fn try_simplify_function_val(function: &Function, funcs: &Vec<Function>, to_check: &Vec<Command>) -> (r: Option<Function>)
    ensures
        r matches Some(g) ==> simplify_val(function@, m_funcs(funcs@), m_cmds(to_check@)) == Some(g@),
        r is None ==> simplify_val(function@, m_funcs(funcs@), m_cmds(to_check@)) is None,
{
    proof {
        assert(function@.input =~= function.input@.map_values(|b: Binding| b@));
    }
    let mut state = match input_types(&function.input) {
        Some(s) => s,
        None => {
            return None;
        },
    };
    let ghost st0 = state@;
    let ghost sv = function@.content;
    let ghost tc = m_cmds(to_check@);
    let mut result: Vec<Command> = Vec::new();
    let mut i: usize = 0;
    proof {
        assert(sv.skip(0) =~= sv);
        assert(m_cmds(result@) + sv.skip(0) =~= sv.skip(0));
        assert(prepend_opt(m_cmds(result@), simplify_cmds(sv, st0, m_funcs(funcs@), tc)) == simplify_cmds(sv, st0, m_funcs(funcs@), tc)) by {
            match simplify_cmds(sv, st0, m_funcs(funcs@), tc) {
                Some(x) => { assert(m_cmds(result@) + x =~= x); },
                None => {},
            }
        }
    }
    while i < function.content.len()
        invariant
            i <= function.content.len(),
            sv == function@.content,
            sv == m_cmds(function.content@),
            input_state(function@.input) == Some(st0),
            tc == m_cmds(to_check@),
            simplify_cmds(sv, st0, m_funcs(funcs@), tc) == prepend_opt(
                m_cmds(result@),
                simplify_cmds(sv.skip(i as int), state@, m_funcs(funcs@), tc),
            ),
        decreases function.content.len() - i,
    {
        proof {
            assert(sv.skip(i as int).drop_first() =~= sv.skip(i + 1));
            assert(sv.skip(i as int)[0] == function.content@[i as int]@);
        }
        let comm = &function.content[i];
        let ghost before = result@;
        if contains_cmd(to_check, comm) {
            match comm {
                Command::Binding(Binding::Assignment(name, _, val, m)) => {
                    match try_type_val(val, &state, funcs) {
                        Some(ty) => {
                            result.push(Command::Binding(Binding::Assignment(copy_var(name), ty, copy_value(val), *m)));
                        },
                        None => {
                            proof {
                                assert(simplify_cmds(sv.skip(i as int), state@, m_funcs(funcs@), tc) is None);
                            }
                            return None;
                        },
                    }
                },
                Command::Binding(_) => {
                    result.push(copy_cmd(comm));
                },
                _ => {
                    proof {
                        assert(simplify_cmds(sv.skip(i as int), state@, m_funcs(funcs@), tc) is None);
                    }
                    return None;
                },
            }
        } else {
            match comm {
                Command::Binding(Binding::Assignment(name, t, _, _)) => {
                    state.insert(copy_var(name), copy_type(t));
                },
                Command::Binding(Binding::Declaration(name, t, _)) => {
                    state.insert(copy_var(name), copy_type(t));
                },
                Command::Binding(Binding::Tuple(binds)) => {
                    proof {
                        assert(comm@->Binding_0->Tuple_0 =~= m_cmds(binds@));
                    }
                    let ghost st_before = state@;
                    if !tuple_types(binds, &mut state) {
                        proof {
                            assert(tuple_state(m_cmds(binds@), st_before) is None);
                            assert(simplify_cmds(sv.skip(i as int), st_before, m_funcs(funcs@), tc) is None);
                        }
                        return None;
                    }
                },
                _ => {},
            }
            result.push(copy_cmd(comm));
        }
        proof {
            assert(m_cmds(result@) =~= m_cmds(before).push(result@.last()@));
            match simplify_cmds(sv.skip(i + 1), state@, m_funcs(funcs@), tc) {
                Some(x) => {
                    assert(m_cmds(before) + (seq![result@.last()@] + x) =~= m_cmds(result@) + x);
                },
                None => {},
            }
        }
        i = i + 1;
    }
    proof {
        assert(sv.skip(function.content@.len() as int) =~= Seq::<SCommand>::empty());
        assert(m_cmds(result@) + Seq::<SCommand>::empty() =~= m_cmds(result@));
    }
    let g = Function {
        name: copy_string(&function.name),
        content: result,
        input: copy_bindings(&function.input),
        output: copy_type(&function.output),
        precondition: copy_bool(&function.precondition),
        postcondition: copy_bool(&function.postcondition),
        return_value: copy_value(&function.return_value),
    };
    proof {
        assert(g@.input =~= function@.input);
    }
    Some(g)
}

/// One step of inference: the assignment bindings of `to_check` get the
/// type of their value.
pub fn simplify_function_val(function: Function, funcs: &Vec<Function>, to_check: Vec<Command>) -> (r: Function)
    requires
        simplify_val(function@, m_funcs(funcs@), m_cmds(to_check@)) is Some,
    ensures
        simplify_val(function@, m_funcs(funcs@), m_cmds(to_check@)) == Some(r@),
{
    match try_simplify_function_val(&function, funcs, &to_check) {
        Some(g) => g,
        None => function,
    }
}

/// Infers the types of a function's bindings, step by step, until no
/// step changes the bindings whose type is unknown; `None` where inference
/// stops on a binding it cannot handle.
pub fn try_simplify_function(function: Function, funcs: &Vec<Function>) -> (r: Option<Function>)
    ensures
        r matches Some(g) ==> simplify_function_spec(function@, m_funcs(funcs@)) == Some(g@),
        r is None ==> simplify_function_spec(function@, m_funcs(funcs@)) is None,
{
    let ghost f0 = function@;
    let mut to_check = unknown_bindings_of(&function.content);
    let mut last: Vec<Command> = Vec::new();
    let mut modified = function;
    proof {
        assert(m_cmds(last@) =~= Seq::<SCommand>::empty());
    }
    while !eq_cmds(&last, &to_check)
        invariant
            f0 == function@,
            m_cmds(to_check@) == unknown_bindings(modified@.content),
            simplify_function_spec(f0, m_funcs(funcs@)) == simplify_fix(
                modified@,
                m_funcs(funcs@),
                m_cmds(last@),
                m_cmds(to_check@),
            ),
        decreases 2 * m_cmds(to_check@).len() + (if m_cmds(last@) == m_cmds(to_check@) { 0int } else { 1int }),
    {
        let ghost prev = modified@;
        let ghost tc = m_cmds(to_check@);
        let ghost old_last = m_cmds(last@);
        last = copy_cmds(&to_check);
        match try_simplify_function_val(&modified, funcs, &to_check) {
            Some(m) => {
                modified = m;
            },
            None => {
                proof {
                    assert(old_last != tc);
                    assert(simplify_fix(prev, m_funcs(funcs@), old_last, tc) is None);
                    assert(simplify_function_spec(f0, m_funcs(funcs@)) is None);
                }
                return None;
            },
        }
        to_check = unknown_bindings_of(&modified.content);
        proof {
            lemma_fix_step(prev, m_funcs(funcs@), tc);
        }
    }
    Some(modified)
}

/// Infers the types of a function's bindings (see `try_simplify_function`).
pub fn simplify_function(function: Function, funcs: &Vec<Function>) -> (r: Function)
    requires
        simplify_function_spec(function@, m_funcs(funcs@)) is Some,
    ensures
        simplify_function_spec(function@, m_funcs(funcs@)) == Some(r@),
{
    let ghost f = function@;
    match try_simplify_function(function, funcs) {
        Some(g) => g,
        None => Function {
            name: String::new(),
            content: Vec::new(),
            input: Vec::new(),
            output: Type::Unit,
            precondition: Bool::True,
            postcondition: Bool::True,
            return_value: Value::Unit,
        },
    }
}

pub open spec fn simplify_all(fs: Seq<SFunction>, funcs: Seq<SFunction>) -> Option<Seq<SFunction>>
    decreases fs.len(),
{
    if fs.len() == 0 {
        Some(Seq::empty())
    } else {
        match (simplify_function_spec(fs[0], funcs), simplify_all(fs.drop_first(), funcs)) {
            (Some(f), Some(rest)) => Some(seq![f] + rest),
            _ => None,
        }
    }
}

/// What type inference gives for a whole program: `None` where it stops.
pub open spec fn simplify_spec(p: SProgram) -> Option<SProgram> {
    match simplify_all(p.content, p.content) {
        Some(fs) => Some(SProgram { content: fs }),
        None => None,
    }
}

// ------------------------------------------------------------------
// Laws
// ------------------------------------------------------------------
/// `d` is `c`, or `c` with another type given to the name it binds.
pub open spec fn same_but_type(c: SCommand, d: SCommand) -> bool {
    c == d || (c matches SCommand::Binding(SBinding::Assignment(n, _, v, m)) && d matches SCommand::Binding(
        SBinding::Assignment(n2, _, v2, m2),
    ) && n == n2 && v == v2 && m == m2)
}

/// `g` is `f` with only the types of its assignment bindings changed.
pub open spec fn retyped(f: SFunction, g: SFunction) -> bool {
    &&& g.name == f.name
    &&& g.input == f.input
    &&& g.output == f.output
    &&& g.precondition == f.precondition
    &&& g.postcondition == f.postcondition
    &&& g.return_value == f.return_value
    &&& g.content.len() == f.content.len()
    &&& forall|j: int| 0 <= j < f.content.len() ==> same_but_type(#[trigger] f.content[j], g.content[j])
}

proof fn lemma_cmds_retyped(s: Seq<SCommand>, state: Map<SVariable, SType>, funcs: Seq<SFunction>, tc: Seq<SCommand>)
    requires
        simplify_cmds(s, state, funcs, tc) is Some,
    ensures
        ({
            let out = simplify_cmds(s, state, funcs, tc)->Some_0;
            out.len() == s.len() && forall|j: int| 0 <= j < s.len() ==> same_but_type(#[trigger] s[j], out[j])
        }),
    decreases s.len(),
{
    if s.len() > 0 {
        let c = s[0];
        let st = if tc.contains(c) {
            state
        } else {
            match c {
                SCommand::Binding(SBinding::Assignment(n, t, _, _)) => state.insert(n, t),
                SCommand::Binding(SBinding::Declaration(n, t, _)) => state.insert(n, t),
                SCommand::Binding(SBinding::Tuple(binds)) => tuple_state(binds, state)->Some_0,
                _ => state,
            }
        };
        lemma_cmds_retyped(s.drop_first(), st, funcs, tc);
        let out = simplify_cmds(s, state, funcs, tc)->Some_0;
        let rest = simplify_cmds(s.drop_first(), st, funcs, tc)->Some_0;
        assert(out.drop_first() =~= rest);
        assert forall|j: int| 0 <= j < s.len() implies same_but_type(#[trigger] s[j], out[j]) by {
            if j > 0 {
                assert(s[j] == s.drop_first()[j - 1]);
                assert(out[j] == rest[j - 1]);
            }
        }
    }
}

proof fn lemma_retyped_trans(f: SFunction, g: SFunction, h: SFunction)
    requires
        retyped(f, g),
        retyped(g, h),
    ensures
        retyped(f, h),
{
    assert forall|j: int| 0 <= j < f.content.len() implies same_but_type(#[trigger] f.content[j], h.content[j]) by {
        assert(same_but_type(f.content[j], g.content[j]));
        assert(same_but_type(g.content[j], h.content[j]));
    }
}

proof fn lemma_fix_retyped(f: SFunction, funcs: Seq<SFunction>, last: Seq<SCommand>, tc: Seq<SCommand>)
    requires
        tc == unknown_bindings(f.content),
        simplify_fix(f, funcs, last, tc) is Some,
    ensures
        retyped(f, simplify_fix(f, funcs, last, tc)->Some_0),
    decreases 2 * tc.len() + (if last == tc { 0int } else { 1int }),
{
    if last != tc {
        let f2 = simplify_val(f, funcs, tc)->Some_0;
        lemma_cmds_retyped(f.content, input_state(f.input)->Some_0, funcs, tc);
        lemma_fix_step(f, funcs, tc);
        lemma_fix_retyped(f2, funcs, tc, unknown_bindings(f2.content));
        lemma_retyped_trans(f, f2, simplify_fix(f2, funcs, tc, unknown_bindings(f2.content))->Some_0);
    }
}

/// Type inference only gives types to assignment bindings: every function
/// keeps its name, parameters, result type, annotations, returned value
/// and commands, but for the type of the name that a binding binds.
pub proof fn law_simplify_retypes(p: SProgram)
    requires
        simplify_spec(p) is Some,
    ensures
        simplify_spec(p)->Some_0.content.len() == p.content.len(),
        forall|i: int| 0 <= i < p.content.len() ==> retyped(#[trigger] p.content[i], simplify_spec(p)->Some_0.content[i]),
{
    lemma_all_retyped(p.content, p.content);
}

proof fn lemma_all_retyped(fs: Seq<SFunction>, funcs: Seq<SFunction>)
    requires
        simplify_all(fs, funcs) is Some,
    ensures
        simplify_all(fs, funcs)->Some_0.len() == fs.len(),
        forall|i: int| 0 <= i < fs.len() ==> retyped(#[trigger] fs[i], simplify_all(fs, funcs)->Some_0[i]),
    decreases fs.len(),
{
    if fs.len() > 0 {
        lemma_all_retyped(fs.drop_first(), funcs);
        lemma_fix_retyped(fs[0], funcs, Seq::empty(), unknown_bindings(fs[0].content));
        let out = simplify_all(fs, funcs)->Some_0;
        let rest = simplify_all(fs.drop_first(), funcs)->Some_0;
        assert forall|i: int| 0 <= i < fs.len() implies retyped(#[trigger] fs[i], out[i]) by {
            if i > 0 {
                assert(fs[i] == fs.drop_first()[i - 1]);
                assert(out[i] == rest[i - 1]);
            }
        }
    }
}

/// A program none of whose bindings leaves a type unknown comes out of
/// type inference unchanged.
pub proof fn law_simplify_known(p: SProgram)
    requires
        forall|i: int| 0 <= i < p.content.len() ==> unknown_bindings(#[trigger] p.content[i].content).len() == 0,
    ensures
        simplify_spec(p) == Some(p),
{
    lemma_all_known(p.content, p.content);
}

proof fn lemma_all_known(fs: Seq<SFunction>, funcs: Seq<SFunction>)
    requires
        forall|i: int| 0 <= i < fs.len() ==> unknown_bindings(#[trigger] fs[i].content).len() == 0,
    ensures
        simplify_all(fs, funcs) == Some(fs),
    decreases fs.len(),
{
    if fs.len() > 0 {
        assert forall|i: int| 0 <= i < fs.drop_first().len() implies unknown_bindings(#[trigger] fs.drop_first()[i].content).len() == 0 by {
            assert(fs.drop_first()[i] == fs[i + 1]);
        }
        lemma_all_known(fs.drop_first(), funcs);
        assert(unknown_bindings(fs[0].content).len() == 0);
        assert(unknown_bindings(fs[0].content) =~= Seq::<SCommand>::empty());
        assert(seq![fs[0]] + fs.drop_first() =~= fs);
    } else {
        assert(fs =~= Seq::<SFunction>::empty());
    }
}

/// `gs` has the names and result types of `fs`, in the same order.
pub open spec fn same_signatures(fs: Seq<SFunction>, gs: Seq<SFunction>) -> bool {
    fs.len() == gs.len() && forall|i: int| 0 <= i < fs.len() ==> #[trigger] fs[i].name == gs[i].name && fs[i].output == gs[i].output
}

proof fn lemma_func_output_same(fs: Seq<SFunction>, gs: Seq<SFunction>, n: Seq<char>)
    requires
        same_signatures(fs, gs),
    ensures
        func_output(fs, n) == func_output(gs, n),
    decreases fs.len(),
{
    if fs.len() > 0 {
        assert(fs[0].name == gs[0].name && fs[0].output == gs[0].output);
        assert forall|i: int| 0 <= i < fs.drop_first().len() implies #[trigger] fs.drop_first()[i].name == gs.drop_first()[i].name
            && fs.drop_first()[i].output == gs.drop_first()[i].output by {
            assert(fs[i + 1].name == gs[i + 1].name && fs[i + 1].output == gs[i + 1].output);
        }
        lemma_func_output_same(fs.drop_first(), gs.drop_first(), n);
    }
}

proof fn lemma_type_same(v: SValue, state: Map<SVariable, SType>, fs: Seq<SFunction>, gs: Seq<SFunction>)
    requires
        same_signatures(fs, gs),
    ensures
        type_of_val(v, state, fs) == type_of_val(v, state, gs),
    decreases v,
{
    match v {
        SValue::Array(s) => lemma_first_known_same(s, state, fs, gs),
        SValue::Tuple(s) => lemma_types_same(s, state, fs, gs),
        SValue::Dereference(x) => match *x {
            SValue::Reference(y) => lemma_type_same(*y, state, fs, gs),
            SValue::ReferenceMutable(y) => lemma_type_same(*y, state, fs, gs),
            _ => {},
        },
        SValue::FunctionCall(n, _) => lemma_func_output_same(fs, gs, n),
        SValue::Reference(x) => lemma_type_same(*x, state, fs, gs),
        SValue::ReferenceMutable(x) => lemma_type_same(*x, state, fs, gs),
        _ => {},
    }
}

proof fn lemma_first_known_same(s: Seq<SValue>, state: Map<SVariable, SType>, fs: Seq<SFunction>, gs: Seq<SFunction>)
    requires
        same_signatures(fs, gs),
    ensures
        first_known_type(s, state, fs) == first_known_type(s, state, gs),
    decreases s,
{
    if s.len() > 0 {
        lemma_type_same(s[0], state, fs, gs);
        lemma_first_known_same(s.drop_first(), state, fs, gs);
    }
}

proof fn lemma_types_same(s: Seq<SValue>, state: Map<SVariable, SType>, fs: Seq<SFunction>, gs: Seq<SFunction>)
    requires
        same_signatures(fs, gs),
    ensures
        types_of_values(s, state, fs) == types_of_values(s, state, gs),
    decreases s,
{
    if s.len() > 0 {
        lemma_type_same(s[0], state, fs, gs);
        lemma_types_same(s.drop_first(), state, fs, gs);
    }
}

proof fn lemma_cmds_same(s: Seq<SCommand>, state: Map<SVariable, SType>, fs: Seq<SFunction>, gs: Seq<SFunction>, tc: Seq<SCommand>)
    requires
        same_signatures(fs, gs),
    ensures
        simplify_cmds(s, state, fs, tc) == simplify_cmds(s, state, gs, tc),
    decreases s.len(),
{
    if s.len() > 0 {
        let c = s[0];
        if tc.contains(c) {
            match c {
                SCommand::Binding(SBinding::Assignment(n, _, v, m)) => {
                    lemma_type_same(v, state, fs, gs);
                    lemma_cmds_same(s.drop_first(), state, fs, gs, tc);
                },
                _ => lemma_cmds_same(s.drop_first(), state, fs, gs, tc),
            }
        } else {
            let next = match c {
                SCommand::Binding(SBinding::Assignment(n, t, _, _)) => Some(state.insert(n, t)),
                SCommand::Binding(SBinding::Declaration(n, t, _)) => Some(state.insert(n, t)),
                SCommand::Binding(SBinding::Tuple(binds)) => tuple_state(binds, state),
                _ => Some(state),
            };
            if let Some(st) = next {
                lemma_cmds_same(s.drop_first(), st, fs, gs, tc);
            }
        }
    }
}

/// What inference ends on is a fixed point of its step.
proof fn lemma_fix_stable(f: SFunction, funcs: Seq<SFunction>, last: Seq<SCommand>, tc: Seq<SCommand>)
    requires
        tc == unknown_bindings(f.content),
        simplify_fix(f, funcs, last, tc) is Some,
        last == tc ==> (tc.len() == 0 || simplify_val(f, funcs, tc) == Some(f)),
    ensures
        ({
            let g = simplify_fix(f, funcs, last, tc)->Some_0;
            unknown_bindings(g.content).len() == 0 || simplify_val(g, funcs, unknown_bindings(g.content)) == Some(g)
        }),
    decreases 2 * tc.len() + (if last == tc { 0int } else { 1int }),
{
    if last != tc {
        let f2 = simplify_val(f, funcs, tc)->Some_0;
        lemma_fix_step(f, funcs, tc);
        let tc2 = unknown_bindings(f2.content);
        if tc == tc2 {
            assert(f2 == f);
        }
        lemma_fix_stable(f2, funcs, tc, tc2);
    }
}

proof fn lemma_function_idempotent(f: SFunction, funcs: Seq<SFunction>, funcs2: Seq<SFunction>)
    requires
        same_signatures(funcs, funcs2),
        simplify_function_spec(f, funcs) is Some,
    ensures
        simplify_function_spec(simplify_function_spec(f, funcs)->Some_0, funcs2) == Some(simplify_function_spec(f, funcs)->Some_0),
{
    let g = simplify_function_spec(f, funcs)->Some_0;
    let tc = unknown_bindings(f.content);
    if tc.len() == 0 {
        assert(tc =~= Seq::<SCommand>::empty());
    }
    lemma_fix_stable(f, funcs, Seq::empty(), tc);
    let t = unknown_bindings(g.content);
    if t.len() == 0 {
        assert(t =~= Seq::<SCommand>::empty());
        assert(simplify_fix(g, funcs2, Seq::empty(), t) == Some(g));
    } else {
        match input_state(g.input) {
            Some(st) => lemma_cmds_same(g.content, st, funcs, funcs2, t),
            None => {},
        }
        assert(simplify_val(g, funcs2, t) == Some(g));
        assert(simplify_fix(g, funcs2, t, t) == Some(g));
        assert(t != Seq::<SCommand>::empty());
        assert(simplify_fix(g, funcs2, Seq::empty(), t) == simplify_fix(g, funcs2, t, unknown_bindings(g.content)));
    }
}

proof fn lemma_all_idempotent(fs: Seq<SFunction>, funcs: Seq<SFunction>, funcs2: Seq<SFunction>)
    requires
        same_signatures(funcs, funcs2),
        simplify_all(fs, funcs) is Some,
    ensures
        simplify_all(simplify_all(fs, funcs)->Some_0, funcs2) == simplify_all(fs, funcs),
    decreases fs.len(),
{
    if fs.len() > 0 {
        let out = simplify_all(fs, funcs)->Some_0;
        let rest = simplify_all(fs.drop_first(), funcs)->Some_0;
        lemma_all_idempotent(fs.drop_first(), funcs, funcs2);
        lemma_function_idempotent(fs[0], funcs, funcs2);
        assert(out[0] == simplify_function_spec(fs[0], funcs)->Some_0);
        assert(out.drop_first() =~= rest);
    } else {
        assert(simplify_all(fs, funcs)->Some_0 =~= Seq::<SFunction>::empty());
    }
}

/// Inference reaches a fixed point: running it again on what it gave
/// changes nothing.
pub proof fn law_simplify_idempotent(p: SProgram)
    requires
        simplify_spec(p) is Some,
    ensures
        simplify_spec(simplify_spec(p)->Some_0) == simplify_spec(p),
{
    let q = simplify_spec(p)->Some_0;
    law_simplify_retypes(p);
    assert forall|i: int| 0 <= i < p.content.len() implies #[trigger] p.content[i].name == q.content[i].name
        && p.content[i].output == q.content[i].output by {
        assert(retyped(p.content[i], q.content[i]));
    }
    lemma_all_idempotent(p.content, p.content, q.content);
}

/// Infers the types of the bindings of every function of `program`, each
/// against all the functions of the program; `None` where inference stops.
pub fn try_simplify(program: &Program) -> (r: Option<Program>)
    ensures
        r matches Some(q) ==> simplify_spec(program@) == Some(q@),
        r is None ==> simplify_spec(program@) is None,
{
    let funcs = crate::copying::copy_funcs(&program.content);
    proof {
        assert(m_funcs(funcs@) =~= program@.content);
    }
    let ghost fs = program@.content;
    let mut result: Vec<Function> = Vec::new();
    let mut i: usize = 0;
    proof {
        assert(fs.skip(0) =~= fs);
        assert(m_funcs(result@) =~= Seq::<SFunction>::empty());
        match simplify_all(fs, fs) {
            Some(x) => { assert(m_funcs(result@) + x =~= x); },
            None => {},
        }
    }
    while i < program.content.len()
        invariant
            i <= program.content.len(),
            fs == program@.content,
            m_funcs(funcs@) == fs,
            simplify_all(fs, fs) == (match simplify_all(fs.skip(i as int), fs) {
                Some(x) => Some(m_funcs(result@) + x),
                None => None,
            }),
        decreases program.content.len() - i,
    {
        proof {
            assert(fs.skip(i as int).drop_first() =~= fs.skip(i + 1));
            assert(fs.skip(i as int)[0] == program.content@[i as int]@);
        }
        let ghost before = result@;
        match try_simplify_function(crate::copying::copy_func(&program.content[i]), &funcs) {
            Some(g) => {
                result.push(g);
                proof {
                    assert(m_funcs(result@) =~= m_funcs(before).push(g@));
                    match simplify_all(fs.skip(i + 1), fs) {
                        Some(x) => {
                            assert(m_funcs(before) + (seq![g@] + x) =~= m_funcs(result@) + x);
                        },
                        None => {},
                    }
                }
            },
            None => {
                return None;
            },
        }
        i = i + 1;
    }
    proof {
        assert(fs.skip(program.content@.len() as int) =~= Seq::<SFunction>::empty());
        assert(m_funcs(result@) + Seq::<SFunction>::empty() =~= m_funcs(result@));
    }
    let q = Program { content: result };
    proof {
        assert(q@.content =~= m_funcs(result@));
    }
    Some(q)
}

/// Infers the types of the bindings of every function of `program`.
pub fn simplify(program: Program) -> (r: Program)
    requires
        simplify_spec(program@) is Some,
    ensures
        simplify_spec(program@) == Some(r@),
{
    match try_simplify(&program) {
        Some(q) => q,
        None => program,
    }
}

// ------------------------------------------------------------------
// Laws: where an inferred type comes from.
// ------------------------------------------------------------------
/// A binding element that binds the variable `x`.
pub open spec fn element_rebinds(c: SCommand, x: SVariable) -> bool {
    match c {
        SCommand::Binding(SBinding::Assignment(n, _, _, _)) => n == x,
        SCommand::Binding(SBinding::Declaration(n, _, _)) => n == x,
        _ => false,
    }
}

/// The command binds `x`: a declaration, an assignment binding, or a tuple
/// binding with an element that binds `x`.
pub open spec fn rebinds(c: SCommand, x: SVariable) -> bool {
    match c {
        SCommand::Binding(SBinding::Tuple(s)) => exists|k: int| 0 <= k < s.len() && #[trigger] element_rebinds(s[k], x),
        _ => element_rebinds(c, x),
    }
}

/// A binding element that binds `x` with the type `t`.
pub open spec fn element_gives(c: SCommand, x: SVariable, t: SType) -> bool {
    match c {
        SCommand::Binding(SBinding::Assignment(n, u, _, _)) => n == x && u == t,
        SCommand::Binding(SBinding::Declaration(n, u, _)) => n == x && u == t,
        _ => false,
    }
}

/// The binding gives `x` the type `t` written in it: a binding of `x` with
/// that type, or a tuple binding whose last element that binds `x` has it.
pub open spec fn gives_type(c: SCommand, x: SVariable, t: SType) -> bool {
    match c {
        SCommand::Binding(SBinding::Tuple(s)) => exists|e: int|
            0 <= e < s.len() && #[trigger] element_gives(s[e], x, t) && (forall|k: int|
                e < k < s.len() ==> !#[trigger] element_rebinds(s[k], x)),
        _ => element_gives(c, x, t),
    }
}

proof fn lemma_tuple_state_gives(s: Seq<SCommand>, state: Map<SVariable, SType>, x: SVariable, t: SType, e: int)
    requires
        tuple_state(s, state) is Some,
        0 <= e < s.len(),
        element_gives(s[e], x, t),
        forall|k: int| e < k < s.len() ==> !#[trigger] element_rebinds(s[k], x),
    ensures
        tuple_state(s, state)->Some_0.contains_key(x),
        tuple_state(s, state)->Some_0[x] == t,
    decreases s.len(),
{
    let next = match s[0] {
        SCommand::Binding(SBinding::Assignment(n, u, _, _)) => state.insert(n, u),
        SCommand::Binding(SBinding::Declaration(n, u, _)) => state.insert(n, u),
        _ => state,
    };
    if e == 0 {
        assert forall|k: int| 0 <= k < s.drop_first().len() implies !#[trigger] element_rebinds(s.drop_first()[k], x) by {
            assert(s.drop_first()[k] == s[k + 1]);
        }
        lemma_tuple_state_keeps(s.drop_first(), next, x);
    } else {
        assert(s.drop_first()[e - 1] == s[e]);
        assert forall|k: int| e - 1 < k < s.drop_first().len() implies !#[trigger] element_rebinds(s.drop_first()[k], x) by {
            assert(s.drop_first()[k] == s[k + 1]);
        }
        lemma_tuple_state_gives(s.drop_first(), next, x, t, e - 1);
    }
}

proof fn lemma_tuple_state_keeps(s: Seq<SCommand>, state: Map<SVariable, SType>, x: SVariable)
    requires
        tuple_state(s, state) is Some,
        state.contains_key(x),
        forall|k: int| 0 <= k < s.len() ==> !#[trigger] element_rebinds(s[k], x),
    ensures
        tuple_state(s, state)->Some_0.contains_key(x),
        tuple_state(s, state)->Some_0[x] == state[x],
    decreases s.len(),
{
    if s.len() > 0 {
        assert(!element_rebinds(s[0], x));
        assert forall|k: int| 0 <= k < s.drop_first().len() implies !#[trigger] element_rebinds(s.drop_first()[k], x) by {
            assert(s.drop_first()[k] == s[k + 1]);
        }
        match s[0] {
            SCommand::Binding(SBinding::Assignment(n, t, _, _)) => lemma_tuple_state_keeps(s.drop_first(), state.insert(n, t), x),
            SCommand::Binding(SBinding::Declaration(n, t, _)) => lemma_tuple_state_keeps(s.drop_first(), state.insert(n, t), x),
            _ => {},
        }
    }
}

proof fn lemma_simplify_len(s: Seq<SCommand>, state: Map<SVariable, SType>, funcs: Seq<SFunction>, tc: Seq<SCommand>)
    requires
        simplify_cmds(s, state, funcs, tc) is Some,
    ensures
        simplify_cmds(s, state, funcs, tc)->Some_0.len() == s.len(),
    decreases s.len(),
{
    if s.len() > 0 {
        let c = s[0];
        if tc.contains(c) {
            lemma_simplify_len(s.drop_first(), state, funcs, tc);
        } else {
            let next = match c {
                SCommand::Binding(SBinding::Assignment(n, t, _, _)) => Some(state.insert(n, t)),
                SCommand::Binding(SBinding::Declaration(n, t, _)) => Some(state.insert(n, t)),
                SCommand::Binding(SBinding::Tuple(binds)) => tuple_state(binds, state),
                _ => Some(state),
            };
            lemma_simplify_len(s.drop_first(), next->Some_0, funcs, tc);
        }
    }
}

/// A binding `let y = x` in `to_check` gets the type that the state gives
/// `x`, where no binding before it, outside `to_check`, binds `x` again.
proof fn lemma_copy_typed(
    s: Seq<SCommand>,
    state: Map<SVariable, SType>,
    funcs: Seq<SFunction>,
    tc: Seq<SCommand>,
    j: int,
    x: SVariable,
)
    requires
        0 <= j < s.len(),
        simplify_cmds(s, state, funcs, tc) is Some,
        tc.contains(s[j]),
        s[j] matches SCommand::Binding(SBinding::Assignment(_, _, SValue::Variable(z), _)) && z == x,
        state.contains_key(x),
        forall|k: int| 0 <= k < j ==> tc.contains(s[k]) || !#[trigger] rebinds(s[k], x),
    ensures
        simplify_cmds(s, state, funcs, tc)->Some_0[j] == (match s[j] {
            SCommand::Binding(SBinding::Assignment(y, _, v, m)) => SCommand::Binding(SBinding::Assignment(y, state[x], v, m)),
            _ => s[j],
        }),
    decreases s.len(),
{
    let r = simplify_cmds(s, state, funcs, tc)->Some_0;
    let c = s[0];
    if j > 0 {
        assert forall|k: int| 0 <= k < j - 1 implies tc.contains(s.drop_first()[k]) || !#[trigger] rebinds(s.drop_first()[k], x) by {
            assert(s.drop_first()[k] == s[k + 1]);
            assert(tc.contains(s[k + 1]) || !rebinds(s[k + 1], x));
        }
        assert(s.drop_first()[j - 1] == s[j]);
        if tc.contains(c) {
            let rest = simplify_cmds(s.drop_first(), state, funcs, tc)->Some_0;
            lemma_simplify_len(s.drop_first(), state, funcs, tc);
            lemma_copy_typed(s.drop_first(), state, funcs, tc, j - 1, x);
            assert(r[j] == rest[j - 1]);
        } else {
            assert(!rebinds(c, x));
            let next = match c {
                SCommand::Binding(SBinding::Assignment(n, t, _, _)) => Some(state.insert(n, t)),
                SCommand::Binding(SBinding::Declaration(n, t, _)) => Some(state.insert(n, t)),
                SCommand::Binding(SBinding::Tuple(binds)) => tuple_state(binds, state),
                _ => Some(state),
            };
            let st = next->Some_0;
            match c {
                SCommand::Binding(SBinding::Tuple(binds)) => {
                    assert forall|k: int| 0 <= k < binds.len() implies !#[trigger] element_rebinds(binds[k], x) by {}
                    lemma_tuple_state_keeps(binds, state, x);
                },
                _ => {},
            }
            assert(st.contains_key(x) && st[x] == state[x]);
            let rest = simplify_cmds(s.drop_first(), st, funcs, tc)->Some_0;
            lemma_simplify_len(s.drop_first(), st, funcs, tc);
            lemma_copy_typed(s.drop_first(), st, funcs, tc, j - 1, x);
            assert(r[j] == rest[j - 1]);
        }
    }
}

/// Brings the state from the start of `s` to the binding at `i`: what a
/// binding outside `to_check` at `i` gives `x` holds from `i + 1` on.
proof fn lemma_binding_typed(
    s: Seq<SCommand>,
    state: Map<SVariable, SType>,
    funcs: Seq<SFunction>,
    tc: Seq<SCommand>,
    i: int,
    j: int,
    x: SVariable,
    t: SType,
)
    requires
        0 <= i < j < s.len(),
        simplify_cmds(s, state, funcs, tc) is Some,
        !tc.contains(s[i]),
        gives_type(s[i], x, t),
        tc.contains(s[j]),
        s[j] matches SCommand::Binding(SBinding::Assignment(_, _, SValue::Variable(z), _)) && z == x,
        forall|k: int| i < k < j ==> tc.contains(s[k]) || !#[trigger] rebinds(s[k], x),
    ensures
        simplify_cmds(s, state, funcs, tc)->Some_0[j] == (match s[j] {
            SCommand::Binding(SBinding::Assignment(y, _, v, m)) => SCommand::Binding(SBinding::Assignment(y, t, v, m)),
            _ => s[j],
        }),
    decreases s.len(),
{
    let r = simplify_cmds(s, state, funcs, tc)->Some_0;
    let c = s[0];
    assert(s.drop_first()[j - 1] == s[j]);
    let next = if tc.contains(c) {
        Some(state)
    } else {
        match c {
            SCommand::Binding(SBinding::Assignment(n, t, _, _)) => Some(state.insert(n, t)),
            SCommand::Binding(SBinding::Declaration(n, t, _)) => Some(state.insert(n, t)),
            SCommand::Binding(SBinding::Tuple(binds)) => tuple_state(binds, state),
            _ => Some(state),
        }
    };
    let st = next->Some_0;
    let rest = simplify_cmds(s.drop_first(), st, funcs, tc)->Some_0;
    lemma_simplify_len(s.drop_first(), st, funcs, tc);
    assert(r[j] == rest[j - 1]);
    if i == 0 {
        match c {
            SCommand::Binding(SBinding::Tuple(binds)) => {
                let e = choose|e: int|
                    0 <= e < binds.len() && #[trigger] element_gives(binds[e], x, t) && (forall|k: int|
                        e < k < binds.len() ==> !#[trigger] element_rebinds(binds[k], x));
                lemma_tuple_state_gives(binds, state, x, t, e);
            },
            _ => {},
        }
        assert(st.contains_key(x) && st[x] == t);
        assert forall|k: int| 0 <= k < j - 1 implies tc.contains(s.drop_first()[k]) || !#[trigger] rebinds(s.drop_first()[k], x) by {
            assert(s.drop_first()[k] == s[k + 1]);
            assert(tc.contains(s[k + 1]) || !rebinds(s[k + 1], x));
        }
        lemma_copy_typed(s.drop_first(), st, funcs, tc, j - 1, x);
    } else {
        assert(s.drop_first()[i - 1] == s[i]);
        assert forall|k: int| i - 1 < k < j - 1 implies tc.contains(s.drop_first()[k]) || !#[trigger] rebinds(s.drop_first()[k], x) by {
            assert(s.drop_first()[k] == s[k + 1]);
            assert(tc.contains(s[k + 1]) || !rebinds(s[k + 1], x));
        }
        lemma_binding_typed(s.drop_first(), st, funcs, tc, i - 1, j - 1, x, t);
    }
}

/// A binding `let y = x` whose type is inferred gets the type with which
/// `x` was bound before it: by a binding at `i` of the body whose type was
/// written (a declaration, an assignment binding outside `to_check`, or an
/// element of a tuple binding), with no binding of `x` outside `to_check`
/// between the two.
pub proof fn law_infer_from_binding(
    f: SFunction,
    funcs: Seq<SFunction>,
    tc: Seq<SCommand>,
    i: int,
    j: int,
    x: SVariable,
    t: SType,
)
    requires
        simplify_val(f, funcs, tc) is Some,
        0 <= i < j < f.content.len(),
        !tc.contains(f.content[i]),
        gives_type(f.content[i], x, t),
        tc.contains(f.content[j]),
        f.content[j] matches SCommand::Binding(SBinding::Assignment(_, _, SValue::Variable(z), _)) && z == x,
        forall|k: int| i < k < j ==> tc.contains(f.content[k]) || !#[trigger] rebinds(f.content[k], x),
    ensures
        simplify_val(f, funcs, tc)->Some_0.content[j] == (match f.content[j] {
            SCommand::Binding(SBinding::Assignment(y, _, v, m)) => SCommand::Binding(SBinding::Assignment(y, t, v, m)),
            _ => f.content[j],
        }),
{
    lemma_binding_typed(f.content, input_state(f.input)->Some_0, funcs, tc, i, j, x, t);
}

proof fn lemma_input_state_has(s: Seq<SBinding>, p: int, x: SVariable, t: SType)
    requires
        input_state(s) is Some,
        0 <= p < s.len(),
        s[p] matches SBinding::Declaration(n, u, _) && n == x && u == t,
        forall|q: int| p < q < s.len() ==> !(#[trigger] s[q] matches SBinding::Declaration(n, _, _) && n == x),
    ensures
        input_state(s)->Some_0.contains_key(x),
        input_state(s)->Some_0[x] == t,
    decreases s.len(),
{
    if p < s.len() - 1 {
        assert(s.drop_last()[p] == s[p]);
        assert forall|q: int| p < q < s.drop_last().len() implies !(#[trigger] s.drop_last()[q] matches SBinding::Declaration(n, _, _) && n == x) by {
            assert(s.drop_last()[q] == s[q]);
        }
        lemma_input_state_has(s.drop_last(), p, x, t);
        assert(!(s[s.len() - 1] matches SBinding::Declaration(n, _, _) && n == x));
    }
}

/// A binding `let y = x` whose type is inferred gets the type of the
/// parameter `x` (its last declaration among the parameters), where no
/// binding of `x` outside `to_check` comes before it in the body.
pub proof fn law_infer_from_parameter(
    f: SFunction,
    funcs: Seq<SFunction>,
    tc: Seq<SCommand>,
    p: int,
    j: int,
    x: SVariable,
    t: SType,
)
    requires
        simplify_val(f, funcs, tc) is Some,
        0 <= p < f.input.len(),
        f.input[p] matches SBinding::Declaration(n, u, _) && n == x && u == t,
        forall|q: int| p < q < f.input.len() ==> !(#[trigger] f.input[q] matches SBinding::Declaration(n, _, _) && n == x),
        0 <= j < f.content.len(),
        tc.contains(f.content[j]),
        f.content[j] matches SCommand::Binding(SBinding::Assignment(_, _, SValue::Variable(z), _)) && z == x,
        forall|k: int| 0 <= k < j ==> tc.contains(f.content[k]) || !#[trigger] rebinds(f.content[k], x),
    ensures
        simplify_val(f, funcs, tc)->Some_0.content[j] == (match f.content[j] {
            SCommand::Binding(SBinding::Assignment(y, _, v, m)) => SCommand::Binding(SBinding::Assignment(y, t, v, m)),
            _ => f.content[j],
        }),
{
    lemma_input_state_has(f.input, p, x, t);
    lemma_copy_typed(f.content, input_state(f.input)->Some_0, funcs, tc, j, x);
}

/// A binding in `to_check` gets the type of its value under the state
/// reached at it.
proof fn lemma_typed_at(s: Seq<SCommand>, state: Map<SVariable, SType>, funcs: Seq<SFunction>, tc: Seq<SCommand>, j: int)
    requires
        0 <= j < s.len(),
        simplify_cmds(s, state, funcs, tc) is Some,
        tc.contains(s[j]),
        s[j] is Binding && s[j]->Binding_0 is Assignment,
    ensures
        exists|st: Map<SVariable, SType>|
            #[trigger] type_of_val(s[j]->Binding_0->Assignment_2, st, funcs) is Some
                && simplify_cmds(s, state, funcs, tc)->Some_0[j] == SCommand::Binding(
                SBinding::Assignment(
                    s[j]->Binding_0->Assignment_0,
                    type_of_val(s[j]->Binding_0->Assignment_2, st, funcs)->Some_0,
                    s[j]->Binding_0->Assignment_2,
                    s[j]->Binding_0->Assignment_3,
                ),
            ),
    decreases s.len(),
{
    let r = simplify_cmds(s, state, funcs, tc)->Some_0;
    let v = s[j]->Binding_0->Assignment_2;
    if j == 0 {
        assert(type_of_val(v, state, funcs) is Some);
    } else {
        let c = s[0];
        assert(s.drop_first()[j - 1] == s[j]);
        let next = if tc.contains(c) {
            Some(state)
        } else {
            match c {
                SCommand::Binding(SBinding::Assignment(n, t, _, _)) => Some(state.insert(n, t)),
                SCommand::Binding(SBinding::Declaration(n, t, _)) => Some(state.insert(n, t)),
                SCommand::Binding(SBinding::Tuple(binds)) => tuple_state(binds, state),
                _ => Some(state),
            }
        };
        let st = next->Some_0;
        lemma_simplify_len(s.drop_first(), st, funcs, tc);
        lemma_typed_at(s.drop_first(), st, funcs, tc, j - 1);
        assert(r[j] == simplify_cmds(s.drop_first(), st, funcs, tc)->Some_0[j - 1]);
    }
}

proof fn lemma_func_output_first(funcs: Seq<SFunction>, q: int, n: Seq<char>)
    requires
        0 <= q < funcs.len(),
        funcs[q].name == n,
        forall|k: int| 0 <= k < q ==> #[trigger] funcs[k].name != n,
    ensures
        func_output(funcs, n) == Some(funcs[q].output),
    decreases q,
{
    if q > 0 {
        assert(funcs[0].name != n);
        assert(funcs.drop_first()[q - 1] == funcs[q]);
        assert forall|k: int| 0 <= k < q - 1 implies #[trigger] funcs.drop_first()[k].name != n by {
            assert(funcs.drop_first()[k] == funcs[k + 1]);
        }
        lemma_func_output_first(funcs.drop_first(), q - 1, n);
    }
}

/// The type inferred for a binding whatever the other bindings say: an
/// arithmetic expression gives `i32`, a formula `bool`, and the call of a
/// function the output of the first function of that name.
pub proof fn law_infer_from_value(f: SFunction, funcs: Seq<SFunction>, tc: Seq<SCommand>, j: int)
    requires
        simplify_val(f, funcs, tc) is Some,
        0 <= j < f.content.len(),
        tc.contains(f.content[j]),
        f.content[j] is Binding && f.content[j]->Binding_0 is Assignment,
    ensures
        ({
            let v = f.content[j]->Binding_0->Assignment_2;
            let typed = |t: SType|
                SCommand::Binding(
                    SBinding::Assignment(f.content[j]->Binding_0->Assignment_0, t, v, f.content[j]->Binding_0->Assignment_3),
                );
            let r = simplify_val(f, funcs, tc)->Some_0.content[j];
            &&& v is Expr ==> r == typed(SType::I32)
            &&& v is Bool ==> r == typed(SType::Bool)
            &&& forall|q: int|
                0 <= q < funcs.len() && v is FunctionCall && #[trigger] funcs[q].name == v->FunctionCall_0 && (forall|k: int|
                    0 <= k < q ==> funcs[k].name != v->FunctionCall_0) ==> r == typed(funcs[q].output)
        }),
{
    lemma_typed_at(f.content, input_state(f.input)->Some_0, funcs, tc, j);
    let v = f.content[j]->Binding_0->Assignment_2;
    assert forall|q: int|
        0 <= q < funcs.len() && v is FunctionCall && #[trigger] funcs[q].name == v->FunctionCall_0 && (forall|k: int|
            0 <= k < q ==> funcs[k].name != v->FunctionCall_0) implies func_output(funcs, v->FunctionCall_0) == Some(funcs[q].output) by {
        lemma_func_output_first(funcs, q, v->FunctionCall_0);
    }
}

} // verus!
