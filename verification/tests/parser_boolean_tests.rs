use rustp::ast::{Bool, Expr, Opcode, Value, Variable};
use rustp::parser::boolean::{_false, _true, and, exists_expr, expr, factor_compare_equal, factor_compare_greater, factor_compare_greater_equal, factor_compare_not_equal, factor_compare_smaller, factor_compare_smaller_equal, factor_id, factor_not, factor_paren, forall_expr, mult_expr_right, not, or};

#[test]
fn tests_mult_expr_right1() {
    assert!(mult_expr_right("&& true").unwrap().0 == "");
}

#[test]
fn mult_expr_right2() {
    assert!(mult_expr_right(" && true").unwrap().0 == "");
}

#[test]
fn tests_expr1() {
    assert!(expr("true").is_ok());
    assert!(expr("true || false").is_ok());
    assert!(expr("true || false || true").unwrap().0 == "");
    assert!(
        expr("false || true").unwrap().1
            == Box::new(Bool::Or(
                Box::new(Bool::False),
                Box::new(Bool::True)
            ))
    );
}

#[test]
fn tests_expr2() {
    assert!(expr("!false && (a && b) || (!c) && true").unwrap().0 == "");
}

#[test]
fn tests_expr3() {
    assert!(expr("true && (a == (b + 3))").unwrap().0 == "");
    assert!(
        expr("true && (a == (b + 3))").unwrap().1
            == Box::new(Bool::And(
                Box::new(Bool::True),
                Box::new(Bool::Equal(
                    Expr::Value(Box::new(Value::Variable(Variable::Named(
                        "a".to_string()
                    )))),
                    Expr::Op(
                        Box::new(Expr::Value(Box::new(Value::Variable(
                            Variable::Named("b".to_string())
                        )))),
                        Opcode::Add,
                        Box::new(Expr::Number(3))
                    )
                ))
            ))
    );
}

#[test]
fn tests_factor_id_1() {
    assert!(factor_id("true").unwrap().1 == Box::new(Bool::True));
    assert!(factor_id("false").unwrap().1 == Box::new(Bool::False));
}

#[test]
fn factor_compare_equal1() {
    assert!(
        factor_compare_equal("12 == 43").unwrap().1
            == Box::new(Bool::Equal(
                Expr::Number(12),
                Expr::Number(43)
            ))
    );

    assert!(
        factor_compare_equal("a == (b + 3)").unwrap().1
            == Box::new(Bool::Equal(
                Expr::Value(Box::new(Value::Variable(Variable::Named(
                    "a".to_string()
                )))),
                Expr::Op(
                    Box::new(Expr::Value(Box::new(Value::Variable(
                        Variable::Named("b".to_string())
                    )))),
                    Opcode::Add,
                    Box::new(Expr::Number(3))
                )
            ))
    );
}

#[test]
fn factor_compare_not_equal1() {
    assert!(
        factor_compare_not_equal("12 != 43").unwrap().1
            == Box::new(Bool::Not(Box::new(Bool::Equal(
                Expr::Number(12),
                Expr::Number(43)
            ))))
    );

    assert!(
        factor_compare_not_equal("a != (b + 3)").unwrap().1
            == Box::new(Bool::Not(Box::new(Bool::Equal(
                Expr::Value(Box::new(Value::Variable(Variable::Named(
                    "a".to_string()
                )))),
                Expr::Op(
                    Box::new(Expr::Value(Box::new(Value::Variable(
                        Variable::Named("b".to_string())
                    )))),
                    Opcode::Add,
                    Box::new(Expr::Number(3))
                )
            ))))
    );
}

#[test]
fn factor_compare_greater_equal1() {
    assert!(
        factor_compare_greater_equal("12 >= 43").unwrap().1
            == Box::new(Bool::GreaterEqual(
                Expr::Number(12),
                Expr::Number(43)
            ))
    );
    assert!(
        factor_compare_greater_equal("a >= (b + 3)").unwrap().1
            == Box::new(Bool::GreaterEqual(
                Expr::Value(Box::new(Value::Variable(Variable::Named(
                    "a".to_string()
                )))),
                Expr::Op(
                    Box::new(Expr::Value(Box::new(Value::Variable(
                        Variable::Named("b".to_string())
                    )))),
                    Opcode::Add,
                    Box::new(Expr::Number(3))
                )
            ))
    );
}

#[test]
fn factor_compare_smaller_equal1() {
    assert!(
        factor_compare_smaller_equal("12 <= 43").unwrap().1
            == Box::new(Bool::LowerEqual(
                Expr::Number(12),
                Expr::Number(43)
            ))
    );

    assert!(
        factor_compare_smaller_equal("a <= (b + 3)").unwrap().1
            == Box::new(Bool::LowerEqual(
                Expr::Value(Box::new(Value::Variable(Variable::Named(
                    "a".to_string()
                )))),
                Expr::Op(
                    Box::new(Expr::Value(Box::new(Value::Variable(
                        Variable::Named("b".to_string())
                    )))),
                    Opcode::Add,
                    Box::new(Expr::Number(3))
                )
            ))
    );
}

#[test]
fn factor_compare_greater1() {
    assert!(
        factor_compare_greater("12 > 43").unwrap().1
            == Box::new(Bool::GreaterThan(
                Expr::Number(12),
                Expr::Number(43)
            ))
    );

    assert!(
        factor_compare_greater("a > (b + 3)").unwrap().1
            == Box::new(Bool::GreaterThan(
                Expr::Value(Box::new(Value::Variable(Variable::Named(
                    "a".to_string()
                )))),
                Expr::Op(
                    Box::new(Expr::Value(Box::new(Value::Variable(
                        Variable::Named("b".to_string())
                    )))),
                    Opcode::Add,
                    Box::new(Expr::Number(3))
                )
            ))
    );
}

#[test]
fn factor_compare_smaller1() {
    assert!(
        factor_compare_smaller("12 < 43").unwrap().1
            == Box::new(Bool::LowerThan(
                Expr::Number(12),
                Expr::Number(43)
            ))
    );

    assert_eq!(
        factor_compare_smaller("i < n").unwrap().1,
        Box::new(Bool::LowerThan(
            Expr::Value(Box::new(Value::Variable(Variable::Named(
                String::from("i")
            )))),
            Expr::Value(Box::new(Value::Variable(Variable::Named(
                String::from("n")
            ))))
        ))
    );

    assert!(
        factor_compare_smaller("a < (b + 3)").unwrap().1
            == Box::new(Bool::LowerThan(
                Expr::Value(Box::new(Value::Variable(Variable::Named(
                    "a".to_string()
                )))),
                Expr::Op(
                    Box::new(Expr::Value(Box::new(Value::Variable(
                        Variable::Named("b".to_string())
                    )))),
                    Opcode::Add,
                    Box::new(Expr::Number(3))
                )
            ))
    );
}

#[test]
fn tests_factor_not_1() {
    assert!(factor_not("!true").unwrap().1 == Box::new(Bool::Not(Box::new(Bool::True))));
}

#[test]
fn tests_factor_paren_1() {
    assert!(
        factor_paren("(!true)").unwrap().1 == Box::new(Bool::Not(Box::new(Bool::True)))
    );
    assert!(
        factor_paren("(!a)").unwrap().1
            == Box::new(Bool::Not(Box::new(Bool::Value(Box::new(
                Value::Variable(Variable::Named("a".to_string()))
            )))))
    );
}

#[test]
fn tests__true1() {
    assert!(_true("true").unwrap().0 == "");
    assert!(_true("false").is_err());
}

#[test]
fn tests__false1() {
    assert!(_false("false").unwrap().0 == "");
    assert!(_false("true").is_err());
}

#[test]
fn tests_and1() {
    assert!(and("&&").unwrap().0 == "");
    assert!(and("&").is_err());
}

#[test]
fn tests_or1() {
    assert!(or("||").unwrap().0 == "");
    assert!(or("|").is_err());
}

#[test]
fn tests_not1() {
    assert!(not("!").unwrap().0 == "");
    assert!(not("?").is_err());
}

#[test]
fn equal1() {
    assert_eq!(
        factor_compare_equal("quo * y + rem == x").unwrap().1,
        Box::new(Bool::Equal(
            Expr::Op(
                Box::new(Expr::Op(
                    Box::new(Expr::Value(Box::new(Value::Variable(
                        Variable::Named(String::from("quo"))
                    )))),
                    Opcode::Mul,
                    Box::new(Expr::Value(Box::new(Value::Variable(
                        Variable::Named(String::from("y"))
                    ))))
                )),
                Opcode::Add,
                Box::new(Expr::Value(Box::new(Value::Variable(
                    Variable::Named(String::from("rem"))
                ))))
            ),
            Expr::Value(Box::new(Value::Variable(Variable::Named(
                String::from("x")
            ))))
        ))
    );
}

#[test]
fn forall1() {
    assert!(forall_expr("forall i 143 == 12").is_ok());
    assert!(forall_expr("forall j 3 - j < 2").unwrap().0 == "");
    assert_eq!(
        forall_expr("forall x x == 1").unwrap().1,
        Box::new(Bool::ForAll(
            Variable::Named(String::from("x")),
            Box::new(Bool::Equal(
                Expr::Value(Box::new(Value::Variable(Variable::Named(
                    String::from("x")
                )))),
                Expr::Number(1)
            ))
        ))
    );
}

#[test]
fn exists1() {
    assert!(exists_expr("exists i 143 == 12").is_ok());
    assert!(exists_expr("exists j 3 - j < 2").unwrap().0 == "");
    assert_eq!(
        exists_expr("exists x x == 1").unwrap().1,
        Box::new(Bool::Exists(
            Variable::Named(String::from("x")),
            Box::new(Bool::Equal(
                Expr::Value(Box::new(Value::Variable(Variable::Named(
                    String::from("x")
                )))),
                Expr::Number(1)
            ))
        ))
    );
}
