use rustp::clauses::{int_string, Clause, Expr, Function, Opcode, Variable};

fn x() -> Expr {
    Expr::Variable(Variable::Named(String::from("x")))
}

#[test]
fn clause_expr_in_prefix_notation() {
    let e = Expr::Op(Box::new(Expr::Number(1)), Opcode::Add, Box::new(x()));
    assert_eq!(e.to_text(), "(+ 1 x)");
}

#[test]
fn clause_nested_expr() {
    let inner = Expr::Op(Box::new(x()), Opcode::Mul, Box::new(Expr::Number(-12)));
    let e = Expr::Op(Box::new(inner), Opcode::Div, Box::new(Expr::Number(3)));
    assert_eq!(e.to_text(), "(/ (* x -12) 3)");
}

#[test]
fn clause_numbers_in_decimal() {
    assert_eq!(int_string(0), "0");
    assert_eq!(int_string(-12), "-12");
    assert_eq!(int_string(i32::MIN), "-2147483648");
    assert_eq!(int_string(i32::MAX), "2147483647");
}

#[test]
fn clause_assert_kept_as_written() {
    assert_eq!(Clause::Assert(String::from("x > 0")).to_text(), "x > 0");
    assert_eq!(Clause::Expr(x()).to_text(), "x");
    assert_eq!(Opcode::Sub.to_text(), "-");
}

#[test]
fn clause_function_text() {
    let f = Function {
        name: String::from("f"),
        content: vec![
            Clause::Expr(Expr::Op(Box::new(Expr::Number(1)), Opcode::Add, Box::new(x()))),
            Clause::Assert(String::from("ok")),
        ],
    };
    assert_eq!(f.to_text(), "f (+ 1 x)\tok\t");
}
