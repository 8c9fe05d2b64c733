use std::collections::HashSet;
use rustp::ast::{Assignment, Binding, Block, Bool, Command, Expr, ProveControl, ProveControlFuncs, Type, Value, Variable};
use rustp::substitution::Swapper;
use rustp::variables::{AffectedVarGetter, VarGetter};

#[test]
fn ast_get_variables_assignment1() {
    assert_eq!(
        Assignment::Single(Variable::Named(String::from("x")), Value::Unit).get_variables().into_iter().collect::<HashSet<Variable>>(),
        HashSet::from([Variable::Named(String::from("x"))])
    );
}

#[test]
fn ast_get_variables_assignment2() {
    assert_eq!(
        Assignment::Single(
            Variable::Named(String::from("x")),
            Value::Variable(Variable::Named(String::from("y")))
        )
        .get_variables().into_iter().collect::<HashSet<Variable>>(),
        HashSet::from([
            Variable::Named(String::from("x")),
            Variable::Named(String::from("y"))
        ])
    );
}

#[test]
fn ast_get_variables_assignment3() {
    assert_eq!(
        Assignment::Tuple(vec![
            Assignment::Single(
                Variable::Named(String::from("x")),
                Value::Variable(Variable::Named(String::from("y"))),
            ),
            Assignment::Single(Variable::Named(String::from("z")), Value::Unit),
        ])
        .get_variables().into_iter().collect::<HashSet<Variable>>(),
        HashSet::from([
            Variable::Named(String::from("x")),
            Variable::Named(String::from("y")),
            Variable::Named(String::from("z"))
        ])
    );
}

#[test]
fn ast_get_affected_variables_assignment1() {
    assert_eq!(
        Assignment::Single(
            Variable::Named(String::from("x")),
            Value::Variable(Variable::Named(String::from("y")))
        )
        .get_affected_variables().into_iter().collect::<HashSet<Variable>>(),
        HashSet::from([Variable::Named(String::from("x"))])
    );
}

#[test]
fn ast_get_variables_assignment4_dedup() {
    assert_eq!(
        Assignment::Tuple(vec![
            Assignment::Single(
                Variable::Named(String::from("x")),
                Value::Variable(Variable::Named(String::from("y")))
            ),
            Assignment::Single(Variable::Named(String::from("x")), Value::Unit),
        ])
        .get_variables().into_iter().collect::<HashSet<Variable>>(),
        HashSet::from([
            Variable::Named(String::from("x")),
            Variable::Named(String::from("y"))
        ])
    );
}

#[test]
fn ast_get_variables_binding1() {
    assert_eq!(
        Binding::Declaration(Variable::Named(String::from("x")), Type::Unknown, false)
            .get_variables().into_iter().collect::<HashSet<Variable>>(),
        HashSet::from([Variable::Named(String::from("x"))])
    );
}

#[test]
fn ast_get_variables_binding2() {
    assert_eq!(
        Binding::Assignment(
            Variable::Named(String::from("x")),
            Type::Unknown,
            Value::Variable(Variable::Named(String::from("y"))),
            false
        )
        .get_variables().into_iter().collect::<HashSet<Variable>>(),
        HashSet::from([
            Variable::Named(String::from("x")),
            Variable::Named(String::from("y"))
        ])
    );
}

#[test]
fn ast_get_variables_binding3() {
    assert_eq!(
        Binding::Tuple(vec![
            Command::Binding(Binding::Assignment(
                Variable::Named(String::from("x")),
                Type::Unknown,
                Value::Variable(Variable::Named(String::from("y"))),
                false
            )),
            Command::Binding(Binding::Declaration(
                Variable::Named(String::from("x")),
                Type::Unknown,
                false
            ))
        ])
        .get_variables().into_iter().collect::<HashSet<Variable>>(),
        HashSet::from([
            Variable::Named(String::from("x")),
            Variable::Named(String::from("y"))
        ])
    );
}

#[test]
fn ast_get_affected_variables_binding1() {
    assert_eq!(
        Binding::Assignment(
            Variable::Named(String::from("x")),
            Type::Unknown,
            Value::Variable(Variable::Named(String::from("y"))),
            false
        )
        .get_affected_variables().into_iter().collect::<HashSet<Variable>>(),
        HashSet::from([Variable::Named(String::from("x"))])
    );
}

#[test]
fn ast_get_variables_block_if1() {
    assert_eq!(
        Block::If(
            vec![Bool::Value(Box::new(Value::Variable(Variable::ArrayElem(
                String::from("arr"),
                Box::new(Value::Variable(Variable::Named(String::from("y"))))
            ))))],
            vec![vec![Command::Binding(Binding::Assignment(
                Variable::Named(String::from("x")),
                Type::Unknown,
                Value::Unit,
                false
            )),]],
            Vec::new()
        )
        .get_variables().into_iter().collect::<HashSet<Variable>>(),
        HashSet::from([
            Variable::ArrayElem(
                String::from("arr"),
                Box::new(Value::Variable(Variable::Named(String::from("y"))))
            ),
            Variable::Named(String::from("y")),
            Variable::Named(String::from("x"))
        ])
    );
}

#[test]
fn ast_get_variables_block_for1() {
    assert_eq!(
        Block::ForRange(
            Variable::Named(String::from("i")),
            Value::Variable(Variable::Named(String::from("first")),),
            Value::Variable(Variable::Named(String::from("second")),),
            vec![Command::Binding(Binding::Assignment(
                Variable::Named(String::from("x")),
                Type::Unknown,
                Value::Unit,
                false
            )),], Bool::True)
        .get_variables().into_iter().collect::<HashSet<Variable>>(),
        HashSet::from([
            Variable::Named(String::from("i")),
            Variable::Named(String::from("first")),
            Variable::Named(String::from("second")),
            Variable::Named(String::from("x"))
        ])
    );
}

#[test]
fn ast_get_variables_block_while1() {
    assert_eq!(
        Block::While(
            Bool::Value(Box::new(Value::Variable(Variable::Named(String::from(
                "check"
            ))))),
            vec![Command::Binding(Binding::Assignment(
                Variable::Named(String::from("x")),
                Type::Unknown,
                Value::Unit,
                false
            )),], Bool::True, None)
        .get_variables().into_iter().collect::<HashSet<Variable>>(),
        HashSet::from([
            Variable::Named(String::from("check")),
            Variable::Named(String::from("x"))
        ])
    );
}

#[test]
fn tests_get_variables_assignment1() {
    assert_eq!(
        Assignment::Single(Variable::Named(String::from("x")), Value::Unit).get_variables().into_iter().collect::<HashSet<Variable>>(),
        HashSet::from([Variable::Named(String::from("x"))])
    );
}

#[test]
fn tests_get_variables_assignment2() {
    assert_eq!(
        Assignment::Single(
            Variable::Named(String::from("x")),
            Value::Variable(Variable::Named(String::from("y")))
        )
        .get_variables().into_iter().collect::<HashSet<Variable>>(),
        HashSet::from([
            Variable::Named(String::from("x")),
            Variable::Named(String::from("y"))
        ])
    );
}

#[test]
fn tests_get_variables_assignment3() {
    assert_eq!(
        Assignment::Tuple(vec![
            Assignment::Single(
                Variable::Named(String::from("x")),
                Value::Variable(Variable::Named(String::from("y"))),
            ),
            Assignment::Single(Variable::Named(String::from("z")), Value::Unit),
        ])
        .get_variables().into_iter().collect::<HashSet<Variable>>(),
        HashSet::from([
            Variable::Named(String::from("x")),
            Variable::Named(String::from("y")),
            Variable::Named(String::from("z"))
        ])
    );
}

#[test]
fn tests_get_affected_variables_assignment1() {
    assert_eq!(
        Assignment::Single(
            Variable::Named(String::from("x")),
            Value::Variable(Variable::Named(String::from("y")))
        )
        .get_affected_variables().into_iter().collect::<HashSet<Variable>>(),
        HashSet::from([Variable::Named(String::from("x"))])
    );
}

#[test]
fn tests_get_variables_assignment4_dedup() {
    assert_eq!(
        Assignment::Tuple(vec![
            Assignment::Single(
                Variable::Named(String::from("x")),
                Value::Variable(Variable::Named(String::from("y")))
            ),
            Assignment::Single(Variable::Named(String::from("x")), Value::Unit),
        ])
        .get_variables().into_iter().collect::<HashSet<Variable>>(),
        HashSet::from([
            Variable::Named(String::from("x")),
            Variable::Named(String::from("y"))
        ])
    );
}

#[test]
fn tests_get_variables_binding1() {
    assert_eq!(
        Binding::Declaration(Variable::Named(String::from("x")), Type::I32, false).get_variables().into_iter().collect::<HashSet<Variable>>(),
        HashSet::from([Variable::Named(String::from("x"))])
    );
}

#[test]
fn tests_get_variables_binding2() {
    assert_eq!(
        Binding::Assignment(
            Variable::Named(String::from("x")),
            Type::I32,
            Value::Variable(Variable::Named(String::from("y"))),
            false
        )
        .get_variables().into_iter().collect::<HashSet<Variable>>(),
        HashSet::from([
            Variable::Named(String::from("x")),
            Variable::Named(String::from("y"))
        ])
    );
}

#[test]
fn tests_get_variables_binding3() {
    assert_eq!(
        Binding::Tuple(vec![
            Command::Binding(Binding::Assignment(
                Variable::Named(String::from("x")),
                Type::I32,
                Value::Variable(Variable::Named(String::from("y"))),
                false
            )),
            Command::Binding(Binding::Declaration(
                Variable::Named(String::from("x")),
                Type::Bool,
                false
            ))
        ])
        .get_variables().into_iter().collect::<HashSet<Variable>>(),
        HashSet::from([
            Variable::Named(String::from("x")),
            Variable::Named(String::from("y"))
        ])
    );
}

#[test]
fn tests_get_affected_variables_binding1() {
    assert_eq!(
        Binding::Assignment(
            Variable::Named(String::from("x")),
            Type::Bool,
            Value::Variable(Variable::Named(String::from("y"))),
            false
        )
        .get_affected_variables().into_iter().collect::<HashSet<Variable>>(),
        HashSet::from([Variable::Named(String::from("x"))])
    );
}

#[test]
fn tests_get_variables_block_if1() {
    assert_eq!(
        Block::If(
            vec![Bool::Value(Box::new(Value::Variable(Variable::ArrayElem(
                String::from("arr"),
                Box::new(Value::Variable(Variable::Named(String::from("y"))))
            ))))],
            vec![vec![Command::Binding(Binding::Assignment(
                Variable::Named(String::from("x")),
                Type::I32,
                Value::Unit,
                false
            )),]],
            Vec::new()
        )
        .get_variables().into_iter().collect::<HashSet<Variable>>(),
        HashSet::from([
            Variable::ArrayElem(
                String::from("arr"),
                Box::new(Value::Variable(Variable::Named(String::from("y"))))
            ),
            Variable::Named(String::from("y")),
            Variable::Named(String::from("x"))
        ])
    );
}

#[test]
fn tests_get_variables_block_for1() {
    assert_eq!(
        Block::ForRange(
            Variable::Named(String::from("i")),
            Value::Variable(Variable::Named(String::from("first")),),
            Value::Variable(Variable::Named(String::from("second")),),
            vec![Command::Binding(Binding::Assignment(
                Variable::Named(String::from("x")),
                Type::I32,
                Value::Unit,
                false
            )),],
            Bool::True
        )
        .get_variables().into_iter().collect::<HashSet<Variable>>(),
        HashSet::from([
            Variable::Named(String::from("i")),
            Variable::Named(String::from("first")),
            Variable::Named(String::from("second")),
            Variable::Named(String::from("x"))
        ])
    );
}

#[test]
fn tests_get_variables_block_while1() {
    assert_eq!(
        Block::While(
            Bool::Value(Box::new(Value::Variable(Variable::Named(String::from(
                "check"
            ))))),
            vec![Command::Binding(Binding::Assignment(
                Variable::Named(String::from("x")),
                Type::I32,
                Value::Unit,
                false
            )),],
            Bool::True, None)
        .get_variables().into_iter().collect::<HashSet<Variable>>(),
        HashSet::from([
            Variable::Named(String::from("check")),
            Variable::Named(String::from("x"))
        ])
    );
}

#[test]
fn swap1() {
    assert_eq!(
        Bool::Value(Box::new(Value::Variable(Variable::Named(String::from(
            "x"
        )))))
        .swap(
            Variable::Named(String::from("x")),
            Value::Expr(Expr::Number(2))
        ),
        Bool::Value(Box::new(Value::Expr(Expr::Number(2))))
    );
}

#[test]
fn swap2() {
    assert_eq!(
        Value::Variable(Variable::Named(String::from("x"))).swap(
            Variable::Named(String::from("x")),
            Value::Expr(Expr::Number(2))
        ),
        Value::Expr(Expr::Number(2))
    );
}

#[test]
fn prove_control_get_bool_each_kind() {
    let f = Bool::Equal(Expr::Number(1), Expr::Number(2));
    assert_eq!(ProveControl::Assert(f.clone()).get_bool(), f);
    assert_eq!(ProveControl::Assume(f.clone()).get_bool(), f);
    assert_eq!(ProveControl::LoopInvariant(Bool::True).get_bool(), Bool::True);
}
