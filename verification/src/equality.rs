//! Structural equality of syntax trees, decided against their models.
use vstd::prelude::*;
use crate::ast::{
    Assignment, Binding, Block, Bool, Command, Expr, Function, Opcode, ProveControl, Type, Value,
    Variable, m_assign, m_binding, m_bool, m_cmd, m_cmds, m_type, m_value,
};

verus! {

pub fn eq_string(a: &String, b: &String) -> (r: bool)
    ensures
        r == (a@ == b@),
{
    *a == *b
}

pub fn eq_type(a: &Type, b: &Type) -> (r: bool)
    ensures
        r == (a@ == b@),
    decreases a,
{
    match (a, b) {
        (Type::Bool, Type::Bool) => true,
        (Type::I32, Type::I32) => true,
        (Type::Tuple(x), Type::Tuple(y)) => {
            let r = eq_types(x, y);
            proof {
                if r {
                    assert(a@->Tuple_0 =~= b@->Tuple_0);
                } else if x@.len() == y@.len() {
                    let k = choose|k: int| 0 <= k < x@.len() && m_type(x@[k]) != m_type(y@[k]);
                    assert(a@->Tuple_0[k] != b@->Tuple_0[k]);
                } else {
                    assert(a@->Tuple_0.len() != b@->Tuple_0.len());
                }
            }
            r
        },
        (Type::Reference(x), Type::Reference(y)) => eq_type(x, y),
        (Type::ReferenceMutable(x), Type::ReferenceMutable(y)) => eq_type(x, y),
        (Type::Array(x, n), Type::Array(y, k)) => *n == *k && eq_type(x, y),
        (Type::ArraySlice(x), Type::ArraySlice(y)) => eq_type(x, y),
        (Type::Unit, Type::Unit) => true,
        (Type::Unknown, Type::Unknown) => true,
        _ => false,
    }
}

pub fn eq_types(a: &Vec<Type>, b: &Vec<Type>) -> (r: bool)
    ensures
        r == (a@.len() == b@.len() && forall|i: int| 0 <= i < a@.len() ==> m_type(a@[i]) == m_type(b@[i])),
    decreases a,
{
    if a.len() != b.len() {
        return false;
    }
    let mut i: usize = 0;
    while i < a.len()
        invariant
            a.len() == b.len(),
            i <= a.len(),
            forall|j: int| 0 <= j < i ==> m_type(a@[j]) == m_type(b@[j]),
        decreases a.len() - i,
    {
        assert(decreases_to!(a => a@[i as int]));
        if !eq_type(&a[i], &b[i]) {
            return false;
        }
        i = i + 1;
    }
    true
}

pub fn eq_expr(a: &Expr, b: &Expr) -> (r: bool)
    ensures
        r == (a@ == b@),
    decreases a,
{
    match (a, b) {
        (Expr::Number(x), Expr::Number(y)) => *x == *y,
        (Expr::Value(x), Expr::Value(y)) => eq_value(x, y),
        (Expr::Op(x1, o1, y1), Expr::Op(x2, o2, y2)) => {
            let same_op = match (o1, o2) {
                (Opcode::Mul, Opcode::Mul) => true,
                (Opcode::Div, Opcode::Div) => true,
                (Opcode::Add, Opcode::Add) => true,
                (Opcode::Sub, Opcode::Sub) => true,
                (Opcode::Rem, Opcode::Rem) => true,
                _ => false,
            };
            same_op && eq_expr(x1, x2) && eq_expr(y1, y2)
        },
        _ => false,
    }
}

pub fn eq_var(a: &Variable, b: &Variable) -> (r: bool)
    ensures
        r == (a@ == b@),
    decreases a,
{
    match (a, b) {
        (Variable::Named(x), Variable::Named(y)) => eq_string(x, y),
        (Variable::Empty, Variable::Empty) => true,
        (Variable::ArrayElem(x, i), Variable::ArrayElem(y, j)) => eq_string(x, y) && eq_value(i, j),
        (Variable::TupleElem(x, i), Variable::TupleElem(y, j)) => eq_string(x, y) && eq_value(i, j),
        _ => false,
    }
}

pub fn eq_values(a: &Vec<Value>, b: &Vec<Value>) -> (r: bool)
    ensures
        r == (a@.len() == b@.len() && forall|i: int| 0 <= i < a@.len() ==> m_value(a@[i]) == m_value(b@[i])),
    decreases a,
{
    if a.len() != b.len() {
        return false;
    }
    let mut i: usize = 0;
    while i < a.len()
        invariant
            a.len() == b.len(),
            i <= a.len(),
            forall|j: int| 0 <= j < i ==> m_value(a@[j]) == m_value(b@[j]),
        decreases a.len() - i,
    {
        assert(decreases_to!(a => a@[i as int]));
        if !eq_value(&a[i], &b[i]) {
            return false;
        }
        i = i + 1;
    }
    true
}

pub fn eq_value(a: &Value, b: &Value) -> (r: bool)
    ensures
        r == (a@ == b@),
    decreases a,
{
    match (a, b) {
        (Value::Expr(x), Value::Expr(y)) => eq_expr(x, y),
        (Value::Bool(x), Value::Bool(y)) => eq_bool(x, y),
        (Value::Variable(x), Value::Variable(y)) => eq_var(x, y),
        (Value::Tuple(x), Value::Tuple(y)) => {
            let r = eq_values(x, y);
            proof {
                if r {
                    assert(a@->Tuple_0 =~= b@->Tuple_0);
                } else if x@.len() == y@.len() {
                    let k = choose|k: int| 0 <= k < x@.len() && m_value(x@[k]) != m_value(y@[k]);
                    assert(a@->Tuple_0[k] != b@->Tuple_0[k]);
                } else {
                    assert(a@->Tuple_0.len() != b@->Tuple_0.len());
                }
            }
            r
        },
        (Value::Array(x), Value::Array(y)) => {
            let r = eq_values(x, y);
            proof {
                if r {
                    assert(a@->Array_0 =~= b@->Array_0);
                } else if x@.len() == y@.len() {
                    let k = choose|k: int| 0 <= k < x@.len() && m_value(x@[k]) != m_value(y@[k]);
                    assert(a@->Array_0[k] != b@->Array_0[k]);
                } else {
                    assert(a@->Array_0.len() != b@->Array_0.len());
                }
            }
            r
        },
        (Value::FunctionCall(n, x), Value::FunctionCall(m, y)) => {
            if !eq_string(n, m) {
                return false;
            }
            let r = eq_values(x, y);
            proof {
                if r {
                    assert(a@->FunctionCall_1 =~= b@->FunctionCall_1);
                } else if x@.len() == y@.len() {
                    let k = choose|k: int| 0 <= k < x@.len() && m_value(x@[k]) != m_value(y@[k]);
                    assert(a@->FunctionCall_1[k] != b@->FunctionCall_1[k]);
                } else {
                    assert(a@->FunctionCall_1.len() != b@->FunctionCall_1.len());
                }
            }
            r
        },
        (Value::Dereference(x), Value::Dereference(y)) => eq_value(x, y),
        (Value::Reference(x), Value::Reference(y)) => eq_value(x, y),
        (Value::ReferenceMutable(x), Value::ReferenceMutable(y)) => eq_value(x, y),
        (Value::Unit, Value::Unit) => true,
        (Value::Unknown, Value::Unknown) => true,
        (Value::Ternary(c1, x1, y1), Value::Ternary(c2, x2, y2)) => {
            eq_bool(c1, c2) && eq_value(x1, x2) && eq_value(y1, y2)
        },
        _ => false,
    }
}

pub fn eq_bool(a: &Bool, b: &Bool) -> (r: bool)
    ensures
        r == (a@ == b@),
    decreases a,
{
    match (a, b) {
        (Bool::And(x1, y1), Bool::And(x2, y2)) => eq_bool(x1, x2) && eq_bool(y1, y2),
        (Bool::Or(x1, y1), Bool::Or(x2, y2)) => eq_bool(x1, x2) && eq_bool(y1, y2),
        (Bool::Not(x), Bool::Not(y)) => eq_bool(x, y),
        (Bool::Value(x), Bool::Value(y)) => eq_value(x, y),
        (Bool::True, Bool::True) => true,
        (Bool::False, Bool::False) => true,
        (Bool::Equal(x1, y1), Bool::Equal(x2, y2)) => eq_expr(x1, x2) && eq_expr(y1, y2),
        (Bool::GreaterEqual(x1, y1), Bool::GreaterEqual(x2, y2)) => eq_expr(x1, x2) && eq_expr(y1, y2),
        (Bool::LowerEqual(x1, y1), Bool::LowerEqual(x2, y2)) => eq_expr(x1, x2) && eq_expr(y1, y2),
        (Bool::GreaterThan(x1, y1), Bool::GreaterThan(x2, y2)) => eq_expr(x1, x2) && eq_expr(y1, y2),
        (Bool::LowerThan(x1, y1), Bool::LowerThan(x2, y2)) => eq_expr(x1, x2) && eq_expr(y1, y2),
        (Bool::ForAll(v1, x1), Bool::ForAll(v2, x2)) => eq_var(v1, v2) && eq_bool(x1, x2),
        (Bool::Exists(v1, x1), Bool::Exists(v2, x2)) => eq_var(v1, v2) && eq_bool(x1, x2),
        _ => false,
    }
}

pub fn eq_bools(a: &Vec<Bool>, b: &Vec<Bool>) -> (r: bool)
    ensures
        r == (a@.len() == b@.len() && forall|i: int| 0 <= i < a@.len() ==> m_bool(a@[i]) == m_bool(b@[i])),
{
    if a.len() != b.len() {
        return false;
    }
    let mut i: usize = 0;
    while i < a.len()
        invariant
            a.len() == b.len(),
            i <= a.len(),
            forall|j: int| 0 <= j < i ==> m_bool(a@[j]) == m_bool(b@[j]),
        decreases a.len() - i,
    {
        if !eq_bool(&a[i], &b[i]) {
            return false;
        }
        i = i + 1;
    }
    true
}

pub fn eq_pc(a: &ProveControl, b: &ProveControl) -> (r: bool)
    ensures
        r == (a@ == b@),
{
    match (a, b) {
        (ProveControl::Assert(x), ProveControl::Assert(y)) => eq_bool(x, y),
        (ProveControl::Assume(x), ProveControl::Assume(y)) => eq_bool(x, y),
        (ProveControl::LoopInvariant(x), ProveControl::LoopInvariant(y)) => eq_bool(x, y),
        _ => false,
    }
}

/// Equality of two command lists, element by element.
pub fn eq_cmds(a: &Vec<Command>, b: &Vec<Command>) -> (r: bool)
    ensures
        r == (m_cmds(a@) == m_cmds(b@)),
    decreases a,
{
    if a.len() != b.len() {
        proof {
            assert(m_cmds(a@).len() != m_cmds(b@).len());
        }
        return false;
    }
    let mut i: usize = 0;
    while i < a.len()
        invariant
            a.len() == b.len(),
            i <= a.len(),
            forall|j: int| 0 <= j < i ==> m_cmd(a@[j]) == m_cmd(b@[j]),
        decreases a.len() - i,
    {
        assert(decreases_to!(a => a@[i as int]));
        if !eq_cmd(&a[i], &b[i]) {
            proof {
                assert(m_cmds(a@)[i as int] != m_cmds(b@)[i as int]);
            }
            return false;
        }
        i = i + 1;
    }
    proof {
        assert(m_cmds(a@) =~= m_cmds(b@));
    }
    true
}

pub fn eq_assigns(a: &Vec<Assignment>, b: &Vec<Assignment>) -> (r: bool)
    ensures
        r == (a@.len() == b@.len() && forall|i: int| 0 <= i < a@.len() ==> m_assign(a@[i]) == m_assign(b@[i])),
    decreases a,
{
    if a.len() != b.len() {
        return false;
    }
    let mut i: usize = 0;
    while i < a.len()
        invariant
            a.len() == b.len(),
            i <= a.len(),
            forall|j: int| 0 <= j < i ==> m_assign(a@[j]) == m_assign(b@[j]),
        decreases a.len() - i,
    {
        assert(decreases_to!(a => a@[i as int]));
        if !eq_assign(&a[i], &b[i]) {
            return false;
        }
        i = i + 1;
    }
    true
}

pub fn eq_assign(a: &Assignment, b: &Assignment) -> (r: bool)
    ensures
        r == (a@ == b@),
    decreases a,
{
    match (a, b) {
        (Assignment::Tuple(x), Assignment::Tuple(y)) => {
            let r = eq_assigns(x, y);
            proof {
                if r {
                    assert(a@->Tuple_0 =~= b@->Tuple_0);
                } else if x@.len() == y@.len() {
                    let k = choose|k: int| 0 <= k < x@.len() && m_assign(x@[k]) != m_assign(y@[k]);
                    assert(a@->Tuple_0[k] != b@->Tuple_0[k]);
                } else {
                    assert(a@->Tuple_0.len() != b@->Tuple_0.len());
                }
            }
            r
        },
        (Assignment::Single(x1, y1), Assignment::Single(x2, y2)) => eq_var(x1, x2) && eq_value(y1, y2),
        _ => false,
    }
}

pub fn eq_binding(a: &Binding, b: &Binding) -> (r: bool)
    ensures
        r == (a@ == b@),
    decreases a,
{
    match (a, b) {
        (Binding::Declaration(x1, t1, m1), Binding::Declaration(x2, t2, m2)) => {
            *m1 == *m2 && eq_var(x1, x2) && eq_type(t1, t2)
        },
        (Binding::Assignment(x1, t1, v1, m1), Binding::Assignment(x2, t2, v2, m2)) => {
            *m1 == *m2 && eq_var(x1, x2) && eq_type(t1, t2) && eq_value(v1, v2)
        },
        (Binding::Tuple(x), Binding::Tuple(y)) => {
            let r = eq_cmds(x, y);
            proof {
                assert(a@->Tuple_0 =~= m_cmds(x@));
                assert(b@->Tuple_0 =~= m_cmds(y@));
            }
            r
        },
        _ => false,
    }
}

pub fn eq_block(a: &Block, b: &Block) -> (r: bool)
    ensures
        r == (a@ == b@),
    decreases a,
{
    match (a, b) {
        (Block::If(c1, b1, e1), Block::If(c2, b2, e2)) => {
            let rc = eq_bools(c1, c2);
            proof {
                if rc {
                    assert(a@->If_0 =~= b@->If_0);
                } else if c1@.len() == c2@.len() {
                    let k = choose|k: int| 0 <= k < c1@.len() && m_bool(c1@[k]) != m_bool(c2@[k]);
                    assert(a@->If_0[k] != b@->If_0[k]);
                } else {
                    assert(a@->If_0.len() != b@->If_0.len());
                }
            }
            if !rc {
                return false;
            }
            if b1.len() != b2.len() {
                proof {
                    assert(a@->If_1.len() != b@->If_1.len());
                }
                return false;
            }
            let mut i: usize = 0;
            #[verifier::loop_isolation(false)]
            while i < b1.len()
                invariant
                    b1.len() == b2.len(),
                    i <= b1.len(),
                    forall|j: int| 0 <= j < i ==> m_cmds(b1@[j]@) == m_cmds(b2@[j]@),
                decreases b1.len() - i,
            {
                assert(decreases_to!(a => b1@[i as int]));
                if !eq_cmds(&b1[i], &b2[i]) {
                    proof {
                        assert(a@->If_1[i as int] =~= m_cmds(b1@[i as int]@));
                        assert(b@->If_1[i as int] =~= m_cmds(b2@[i as int]@));
                    }
                    return false;
                }
                i = i + 1;
            }
            proof {
                assert forall|j: int| 0 <= j < b1@.len() implies a@->If_1[j] == b@->If_1[j] by {
                    assert(a@->If_1[j] =~= m_cmds(b1@[j]@));
                    assert(b@->If_1[j] =~= m_cmds(b2@[j]@));
                }
                assert(a@->If_1 =~= b@->If_1);
            }
            let r = eq_cmds(e1, e2);
            proof {
                assert(a@->If_2 =~= m_cmds(e1@));
                assert(b@->If_2 =~= m_cmds(e2@));
            }
            r
        },
        (Block::ForRange(i1, f1, l1, c1, v1), Block::ForRange(i2, f2, l2, c2, v2)) => {
            let r = eq_var(i1, i2) && eq_value(f1, f2) && eq_value(l1, l2) && eq_bool(v1, v2)
                && eq_cmds(c1, c2);
            proof {
                assert(a@->ForRange_3 =~= m_cmds(c1@));
                assert(b@->ForRange_3 =~= m_cmds(c2@));
            }
            r
        },
        (Block::While(x1, c1, i1, v1), Block::While(x2, c2, i2, v2)) => {
            let same_var = match (v1, v2) {
                (Some(e1), Some(e2)) => eq_expr(e1, e2),
                (None, None) => true,
                _ => false,
            };
            let r = eq_bool(x1, x2) && eq_bool(i1, i2) && same_var && eq_cmds(c1, c2);
            proof {
                assert(a@->While_1 =~= m_cmds(c1@));
                assert(b@->While_1 =~= m_cmds(c2@));
            }
            r
        },
        _ => false,
    }
}

pub fn eq_cmd(a: &Command, b: &Command) -> (r: bool)
    ensures
        r == (a@ == b@),
    decreases a,
{
    match (a, b) {
        (Command::Binding(x), Command::Binding(y)) => eq_binding(x, y),
        (Command::Assignment(x), Command::Assignment(y)) => eq_assign(x, y),
        (Command::ProveControl(x), Command::ProveControl(y)) => eq_pc(x, y),
        (Command::Block(x), Command::Block(y)) => eq_block(x, y),
        (Command::Noop, Command::Noop) => true,
        _ => false,
    }
}

pub fn eq_bindings(a: &Vec<Binding>, b: &Vec<Binding>) -> (r: bool)
    ensures
        r == (a@.len() == b@.len() && forall|i: int| 0 <= i < a@.len() ==> m_binding(a@[i]) == m_binding(b@[i])),
{
    if a.len() != b.len() {
        return false;
    }
    let mut i: usize = 0;
    while i < a.len()
        invariant
            a.len() == b.len(),
            i <= a.len(),
            forall|j: int| 0 <= j < i ==> m_binding(a@[j]) == m_binding(b@[j]),
        decreases a.len() - i,
    {
        if !eq_binding(&a[i], &b[i]) {
            return false;
        }
        i = i + 1;
    }
    true
}

pub fn eq_func(a: &Function, b: &Function) -> (r: bool)
    ensures
        r == (a@ == b@),
{
    let r = eq_string(&a.name, &b.name) && eq_cmds(&a.content, &b.content) && eq_bindings(&a.input, &b.input)
        && eq_type(&a.output, &b.output) && eq_bool(&a.precondition, &b.precondition) && eq_bool(
        &a.postcondition,
        &b.postcondition,
    ) && eq_value(&a.return_value, &b.return_value);
    proof {
        if a@ == b@ {
            assert(a@.input.len() == b@.input.len());
            assert forall|i: int| 0 <= i < a.input@.len() implies m_binding(a.input@[i]) == m_binding(b.input@[i]) by {
                assert(a@.input[i] == b@.input[i]);
            }
        }
        if r {
            assert(a@.input =~= b@.input);
        }
    }
    r
}

} // verus!
