//! Deep copies of syntax trees, with the same model as the value copied.
use vstd::prelude::*;
use crate::ast::{
    Assignment, Binding, Block, Bool, Command, Expr, Function, Program, ProveControl, Type, Value,
    Variable, m_assign, m_binding, m_bool, m_cmd, m_cmds, m_func, m_type, m_value,
};

verus! {

pub fn copy_string(s: &String) -> (r: String)
    ensures
        r@ == s@,
{
    s.clone()
}

pub fn copy_type(t: &Type) -> (r: Type)
    ensures
        r@ == t@,
    decreases t,
{
    match t {
        Type::Bool => Type::Bool,
        Type::I32 => Type::I32,
        Type::Tuple(ts) => {
            let r = copy_types(ts);
            let res = Type::Tuple(r);
            proof {
                assert(res@->Tuple_0 =~= t@->Tuple_0);
            }
            res
        },
        Type::Reference(x) => Type::Reference(Box::new(copy_type(x))),
        Type::ReferenceMutable(x) => Type::ReferenceMutable(Box::new(copy_type(x))),
        Type::Array(x, n) => Type::Array(Box::new(copy_type(x)), *n),
        Type::ArraySlice(x) => Type::ArraySlice(Box::new(copy_type(x))),
        Type::Unit => Type::Unit,
        Type::Unknown => Type::Unknown,
    }
}

pub fn copy_types(v: &Vec<Type>) -> (r: Vec<Type>)
    ensures
        r@.len() == v@.len(),
        forall|i: int| 0 <= i < v@.len() ==> m_type(#[trigger] r@[i]) == m_type(v@[i]),
    decreases v,
{
    let mut r: Vec<Type> = Vec::new();
    let mut i: usize = 0;
    while i < v.len()
        invariant
            i <= v.len(),
            r@.len() == i,
            forall|j: int| 0 <= j < i ==> m_type(#[trigger] r@[j]) == m_type(v@[j]),
        decreases v.len() - i,
    {
        assert(decreases_to!(v => v@[i as int]));
        r.push(copy_type(&v[i]));
        i = i + 1;
    }
    r
}

pub fn copy_expr(e: &Expr) -> (r: Expr)
    ensures
        r@ == e@,
    decreases e,
{
    match e {
        Expr::Number(n) => Expr::Number(*n),
        Expr::Value(v) => Expr::Value(Box::new(copy_value(v))),
        Expr::Op(a, o, b) => Expr::Op(Box::new(copy_expr(a)), *o, Box::new(copy_expr(b))),
    }
}

pub fn copy_var(v: &Variable) -> (r: Variable)
    ensures
        r@ == v@,
    decreases v,
{
    match v {
        Variable::Named(s) => Variable::Named(copy_string(s)),
        Variable::Empty => Variable::Empty,
        Variable::ArrayElem(s, i) => Variable::ArrayElem(copy_string(s), Box::new(copy_value(i))),
        Variable::TupleElem(s, i) => Variable::TupleElem(copy_string(s), Box::new(copy_value(i))),
    }
}

pub fn copy_values(v: &Vec<Value>) -> (r: Vec<Value>)
    ensures
        r@.len() == v@.len(),
        forall|i: int| 0 <= i < v@.len() ==> m_value(#[trigger] r@[i]) == m_value(v@[i]),
    decreases v,
{
    let mut r: Vec<Value> = Vec::new();
    let mut i: usize = 0;
    while i < v.len()
        invariant
            i <= v.len(),
            r@.len() == i,
            forall|j: int| 0 <= j < i ==> m_value(#[trigger] r@[j]) == m_value(v@[j]),
        decreases v.len() - i,
    {
        assert(decreases_to!(v => v@[i as int]));
        r.push(copy_value(&v[i]));
        i = i + 1;
    }
    r
}

pub fn copy_value(v: &Value) -> (r: Value)
    ensures
        r@ == v@,
    decreases v,
{
    match v {
        Value::Expr(e) => Value::Expr(copy_expr(e)),
        Value::Bool(b) => Value::Bool(copy_bool(b)),
        Value::Variable(x) => Value::Variable(copy_var(x)),
        Value::Tuple(vs) => {
            let res = Value::Tuple(copy_values(vs));
            proof {
                assert(res@->Tuple_0 =~= v@->Tuple_0);
            }
            res
        },
        Value::Array(vs) => {
            let res = Value::Array(copy_values(vs));
            proof {
                assert(res@->Array_0 =~= v@->Array_0);
            }
            res
        },
        Value::FunctionCall(n, vs) => {
            let res = Value::FunctionCall(copy_string(n), copy_values(vs));
            proof {
                assert(res@->FunctionCall_1 =~= v@->FunctionCall_1);
            }
            res
        },
        Value::Dereference(x) => Value::Dereference(Box::new(copy_value(x))),
        Value::Reference(x) => Value::Reference(Box::new(copy_value(x))),
        Value::ReferenceMutable(x) => Value::ReferenceMutable(Box::new(copy_value(x))),
        Value::Unit => Value::Unit,
        Value::Unknown => Value::Unknown,
        Value::Ternary(c, a, b) => Value::Ternary(
            Box::new(copy_bool(c)),
            Box::new(copy_value(a)),
            Box::new(copy_value(b)),
        ),
    }
}

pub fn copy_bool(b: &Bool) -> (r: Bool)
    ensures
        r@ == b@,
    decreases b,
{
    match b {
        Bool::And(x, y) => Bool::And(Box::new(copy_bool(x)), Box::new(copy_bool(y))),
        Bool::Or(x, y) => Bool::Or(Box::new(copy_bool(x)), Box::new(copy_bool(y))),
        Bool::Not(x) => Bool::Not(Box::new(copy_bool(x))),
        Bool::Value(v) => Bool::Value(Box::new(copy_value(v))),
        Bool::True => Bool::True,
        Bool::False => Bool::False,
        Bool::Equal(x, y) => Bool::Equal(copy_expr(x), copy_expr(y)),
        Bool::GreaterEqual(x, y) => Bool::GreaterEqual(copy_expr(x), copy_expr(y)),
        Bool::LowerEqual(x, y) => Bool::LowerEqual(copy_expr(x), copy_expr(y)),
        Bool::GreaterThan(x, y) => Bool::GreaterThan(copy_expr(x), copy_expr(y)),
        Bool::LowerThan(x, y) => Bool::LowerThan(copy_expr(x), copy_expr(y)),
        Bool::ForAll(v, x) => Bool::ForAll(copy_var(v), Box::new(copy_bool(x))),
        Bool::Exists(v, x) => Bool::Exists(copy_var(v), Box::new(copy_bool(x))),
    }
}

pub fn copy_bools(v: &Vec<Bool>) -> (r: Vec<Bool>)
    ensures
        r@.len() == v@.len(),
        forall|i: int| 0 <= i < v@.len() ==> m_bool(#[trigger] r@[i]) == m_bool(v@[i]),
{
    let mut r: Vec<Bool> = Vec::new();
    let mut i: usize = 0;
    while i < v.len()
        invariant
            i <= v.len(),
            r@.len() == i,
            forall|j: int| 0 <= j < i ==> m_bool(#[trigger] r@[j]) == m_bool(v@[j]),
        decreases v.len() - i,
    {
        r.push(copy_bool(&v[i]));
        i = i + 1;
    }
    r
}

pub fn copy_pc(p: &ProveControl) -> (r: ProveControl)
    ensures
        r@ == p@,
{
    match p {
        ProveControl::Assert(b) => ProveControl::Assert(copy_bool(b)),
        ProveControl::Assume(b) => ProveControl::Assume(copy_bool(b)),
        ProveControl::LoopInvariant(b) => ProveControl::LoopInvariant(copy_bool(b)),
    }
}

pub fn copy_cmds(v: &Vec<Command>) -> (r: Vec<Command>)
    ensures
        m_cmds(r@) == m_cmds(v@),
    decreases v,
{
    let mut r: Vec<Command> = Vec::new();
    let mut i: usize = 0;
    while i < v.len()
        invariant
            i <= v.len(),
            r@.len() == i,
            forall|j: int| 0 <= j < i ==> m_cmd(#[trigger] r@[j]) == m_cmd(v@[j]),
        decreases v.len() - i,
    {
        assert(decreases_to!(v => v@[i as int]));
        r.push(copy_cmd(&v[i]));
        i = i + 1;
    }
    proof {
        assert(m_cmds(r@) =~= m_cmds(v@));
    }
    r
}

pub fn copy_assigns(v: &Vec<Assignment>) -> (r: Vec<Assignment>)
    ensures
        r@.len() == v@.len(),
        forall|i: int| 0 <= i < v@.len() ==> m_assign(#[trigger] r@[i]) == m_assign(v@[i]),
    decreases v,
{
    let mut r: Vec<Assignment> = Vec::new();
    let mut i: usize = 0;
    while i < v.len()
        invariant
            i <= v.len(),
            r@.len() == i,
            forall|j: int| 0 <= j < i ==> m_assign(#[trigger] r@[j]) == m_assign(v@[j]),
        decreases v.len() - i,
    {
        assert(decreases_to!(v => v@[i as int]));
        r.push(copy_assign(&v[i]));
        i = i + 1;
    }
    r
}

pub fn copy_assign(a: &Assignment) -> (r: Assignment)
    ensures
        r@ == a@,
    decreases a,
{
    match a {
        Assignment::Tuple(v) => {
            let res = Assignment::Tuple(copy_assigns(v));
            proof {
                assert(res@->Tuple_0 =~= a@->Tuple_0);
            }
            res
        },
        Assignment::Single(x, y) => Assignment::Single(copy_var(x), copy_value(y)),
    }
}

pub fn copy_binding(b: &Binding) -> (r: Binding)
    ensures
        r@ == b@,
    decreases b,
{
    match b {
        Binding::Declaration(x, t, m) => Binding::Declaration(copy_var(x), copy_type(t), *m),
        Binding::Assignment(x, t, v, m) => Binding::Assignment(
            copy_var(x),
            copy_type(t),
            copy_value(v),
            *m,
        ),
        Binding::Tuple(cs) => {
            let r = copy_cmds(cs);
            let res = Binding::Tuple(r);
            proof {
                assert(res@->Tuple_0 =~= m_cmds(r@));
                assert(b@->Tuple_0 =~= m_cmds(cs@));
            }
            res
        },
    }
}

pub fn copy_block(b: &Block) -> (r: Block)
    ensures
        r@ == b@,
    decreases b,
{
    match b {
        Block::If(conds, bodies, el) => {
            let c = copy_bools(conds);
            let mut bs: Vec<Vec<Command>> = Vec::new();
            let mut i: usize = 0;
            #[verifier::loop_isolation(false)]
            while i < bodies.len()
                invariant
                    i <= bodies.len(),
                    bs@.len() == i,
                    forall|j: int| 0 <= j < i ==> m_cmds(#[trigger] bs@[j]@) == m_cmds(bodies@[j]@),
                decreases bodies.len() - i,
            {
                assert(decreases_to!(b => bodies@[i as int]));
                bs.push(copy_cmds(&bodies[i]));
                i = i + 1;
            }
            let e = copy_cmds(el);
            let res = Block::If(c, bs, e);
            proof {
                assert(res@->If_0 =~= b@->If_0);
                assert forall|j: int| 0 <= j < bodies@.len() implies res@->If_1[j] == b@->If_1[j] by {
                    assert(res@->If_1[j] =~= m_cmds(bs@[j]@));
                    assert(b@->If_1[j] =~= m_cmds(bodies@[j]@));
                }
                assert(res@->If_1 =~= b@->If_1);
                assert(res@->If_2 =~= m_cmds(e@));
                assert(b@->If_2 =~= m_cmds(el@));
            }
            res
        },
        Block::ForRange(it, f, l, cs, inv) => {
            let c = copy_cmds(cs);
            let res = Block::ForRange(copy_var(it), copy_value(f), copy_value(l), c, copy_bool(inv));
            proof {
                assert(res@->ForRange_3 =~= m_cmds(c@));
                assert(b@->ForRange_3 =~= m_cmds(cs@));
            }
            res
        },
        Block::While(cond, cs, inv, var) => {
            let c = copy_cmds(cs);
            let v = match var {
                Some(e) => Some(copy_expr(e)),
                None => None,
            };
            let res = Block::While(copy_bool(cond), c, copy_bool(inv), v);
            proof {
                assert(res@->While_1 =~= m_cmds(c@));
                assert(b@->While_1 =~= m_cmds(cs@));
            }
            res
        },
    }
}

pub fn copy_cmd(c: &Command) -> (r: Command)
    ensures
        r@ == c@,
    decreases c,
{
    match c {
        Command::Binding(b) => Command::Binding(copy_binding(b)),
        Command::Assignment(a) => Command::Assignment(copy_assign(a)),
        Command::ProveControl(p) => Command::ProveControl(copy_pc(p)),
        Command::Block(b) => Command::Block(copy_block(b)),
        Command::Noop => Command::Noop,
    }
}

pub fn copy_bindings(v: &Vec<Binding>) -> (r: Vec<Binding>)
    ensures
        r@.len() == v@.len(),
        forall|i: int| 0 <= i < v@.len() ==> m_binding(#[trigger] r@[i]) == m_binding(v@[i]),
{
    let mut r: Vec<Binding> = Vec::new();
    let mut i: usize = 0;
    while i < v.len()
        invariant
            i <= v.len(),
            r@.len() == i,
            forall|j: int| 0 <= j < i ==> m_binding(#[trigger] r@[j]) == m_binding(v@[j]),
        decreases v.len() - i,
    {
        r.push(copy_binding(&v[i]));
        i = i + 1;
    }
    r
}

pub fn copy_func(f: &Function) -> (r: Function)
    ensures
        r@ == f@,
{
    let input = copy_bindings(&f.input);
    let r = Function {
        name: copy_string(&f.name),
        content: copy_cmds(&f.content),
        input: input,
        output: copy_type(&f.output),
        precondition: copy_bool(&f.precondition),
        postcondition: copy_bool(&f.postcondition),
        return_value: copy_value(&f.return_value),
    };
    proof {
        assert(r@.input =~= f@.input);
    }
    r
}

pub fn copy_funcs(v: &Vec<Function>) -> (r: Vec<Function>)
    ensures
        r@.len() == v@.len(),
        forall|i: int| 0 <= i < v@.len() ==> m_func(#[trigger] r@[i]) == m_func(v@[i]),
{
    let mut r: Vec<Function> = Vec::new();
    let mut i: usize = 0;
    while i < v.len()
        invariant
            i <= v.len(),
            r@.len() == i,
            forall|j: int| 0 <= j < i ==> m_func(#[trigger] r@[j]) == m_func(v@[j]),
        decreases v.len() - i,
    {
        r.push(copy_func(&v[i]));
        i = i + 1;
    }
    r
}

impl Clone for Bool {
    fn clone(&self) -> (r: Self)
        ensures
            r@ == self@,
    {
        copy_bool(self)
    }
}

impl Clone for Expr {
    fn clone(&self) -> (r: Self)
        ensures
            r@ == self@,
    {
        copy_expr(self)
    }
}

impl Clone for Value {
    fn clone(&self) -> (r: Self)
        ensures
            r@ == self@,
    {
        copy_value(self)
    }
}

impl Clone for Variable {
    fn clone(&self) -> (r: Self)
        ensures
            r@ == self@,
    {
        copy_var(self)
    }
}

impl Clone for Type {
    fn clone(&self) -> (r: Self)
        ensures
            r@ == self@,
    {
        copy_type(self)
    }
}

impl Clone for ProveControl {
    fn clone(&self) -> (r: Self)
        ensures
            r@ == self@,
    {
        copy_pc(self)
    }
}

impl Clone for Command {
    fn clone(&self) -> (r: Self)
        ensures
            r@ == self@,
    {
        copy_cmd(self)
    }
}

impl Clone for Assignment {
    fn clone(&self) -> (r: Self)
        ensures
            r@ == self@,
    {
        copy_assign(self)
    }
}

impl Clone for Binding {
    fn clone(&self) -> (r: Self)
        ensures
            r@ == self@,
    {
        copy_binding(self)
    }
}

impl Clone for Block {
    fn clone(&self) -> (r: Self)
        ensures
            r@ == self@,
    {
        copy_block(self)
    }
}

impl Clone for Function {
    fn clone(&self) -> (r: Self)
        ensures
            r@ == self@,
    {
        copy_func(self)
    }
}

impl Clone for Program {
    fn clone(&self) -> (r: Self)
        ensures
            r@ == self@,
    {
        let c = copy_funcs(&self.content);
        let r = Program { content: c };
        proof {
            assert(r@.content =~= self@.content);
        }
        r
    }
}

} // verus!
