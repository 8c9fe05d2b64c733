use rustp::ast::{Bool, Expr, Opcode, Value, Variable};
use rustp::prover::Obligation;
use rustp::solver::check_obligation;

fn a() -> Expr {
    Expr::Value(Box::new(Value::Variable(Variable::Named(String::from("a")))))
}

fn op(x: Expr, o: Opcode, y: Expr) -> Expr {
    Expr::Op(Box::new(x), o, Box::new(y))
}

fn shown(premise: Bool, goal: Bool) -> bool {
    check_obligation(&Obligation { premise, goal })
}

#[test]
fn solver_shows_valid_implication() {
    assert!(shown(Bool::Equal(a(), Expr::Number(1)), Bool::GreaterEqual(a(), Expr::Number(1))));
}

#[test]
fn solver_refuses_converse() {
    assert!(!shown(Bool::GreaterEqual(a(), Expr::Number(1)), Bool::Equal(a(), Expr::Number(1))));
}

#[test]
fn solver_division_rounds_down_for_positive_divisor() {
    let q = || op(Expr::Number(-7), Opcode::Div, Expr::Number(2));
    assert!(shown(Bool::True, Bool::Equal(q(), Expr::Number(-4))));
    assert!(!shown(Bool::True, Bool::Equal(q(), Expr::Number(-3))));
}

#[test]
fn solver_division_by_negative_divisor() {
    let q = op(Expr::Number(-7), Opcode::Div, Expr::Number(-2));
    assert!(shown(Bool::True, Bool::Equal(q, Expr::Number(4))));
}

#[test]
fn solver_remainder_follows_divisor_sign() {
    let r1 = op(Expr::Number(-7), Opcode::Rem, Expr::Number(2));
    assert!(shown(Bool::True, Bool::Equal(r1, Expr::Number(1))));
    let r2 = op(Expr::Number(7), Opcode::Rem, Expr::Number(-2));
    assert!(shown(Bool::True, Bool::Equal(r2, Expr::Number(-1))));
    let r3 = op(Expr::Number(-7), Opcode::Rem, Expr::Number(-2));
    assert!(shown(Bool::True, Bool::Equal(r3, Expr::Number(-1))));
}

#[test]
fn solver_division_by_zero_is_a_function_of_the_dividend() {
    let d = || op(a(), Opcode::Div, Expr::Number(0));
    assert!(shown(Bool::True, Bool::Equal(d(), d())));
    assert!(!shown(Bool::True, Bool::Equal(d(), Expr::Number(0))));
}

#[test]
fn solver_untranslatable_formula_not_shown() {
    let t = Value::Tuple(vec![]);
    assert!(!shown(Bool::True, Bool::Value(Box::new(t))));
}
