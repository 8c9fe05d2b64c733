use rustp::ast::{Assignment, Binding, Bool, Command, Expr, Function, Opcode, Program, Type, Value, Variable};
use rustp::context::get_context_func;
use rustp::prover::{calc_prefix, get_pre_command, prove, prove_block};
use rustp::simplifier::simplify;
use rustp::substitution::Swapper;
use rustp::variables::VarGetter;

fn var(n: &str) -> Variable {
    Variable::Named(String::from(n))
}

fn val(n: &str) -> Value {
    Value::Variable(var(n))
}

fn ev(n: &str) -> Expr {
    Expr::Value(Box::new(val(n)))
}

fn a_eq(n: i32) -> Bool {
    Bool::Equal(ev("a"), Expr::Number(n))
}

#[test]
fn law_swap_unused_leaves_formula() {
    let b = Bool::And(Box::new(a_eq(1)), Box::new(Bool::GreaterThan(ev("c"), Expr::Number(0))));
    let r = b.clone().swap(var("x"), Value::Expr(Expr::Number(5)));
    assert_eq!(r, b);
}

#[test]
fn law_swap_used_replaces() {
    let r = a_eq(1).swap(var("a"), Value::Expr(Expr::Number(5)));
    assert_eq!(r, Bool::Equal(Expr::Value(Box::new(Value::Expr(Expr::Number(5)))), Expr::Number(1)));
}

#[test]
fn law_swap_bound_variable_untouched() {
    let b = Bool::ForAll(var("a"), Box::new(a_eq(1)));
    assert_eq!(b.clone().swap(var("a"), Value::Expr(Expr::Number(5))), b);
}

#[test]
fn law_index_swap_unused_leaves_formula() {
    let elem = Bool::Equal(
        Expr::Value(Box::new(Value::Variable(Variable::ArrayElem(String::from("u"), Box::new(Value::Expr(Expr::Number(0))))))),
        Expr::Number(3),
    );
    let b = Bool::And(Box::new(a_eq(1)), Box::new(elem));
    let r = b.clone().index_swap(String::from("t"), Value::Expr(Expr::Number(0)), Value::Expr(Expr::Number(9)));
    assert_eq!(r, b);
}

#[test]
fn law_index_swap_used_gives_choice() {
    let t0 = Value::Variable(Variable::ArrayElem(String::from("t"), Box::new(Value::Expr(Expr::Number(0)))));
    let b = Bool::Value(Box::new(t0.clone()));
    let r = b.index_swap(String::from("t"), Value::Expr(Expr::Number(1)), Value::Bool(Bool::True));
    assert_eq!(
        r,
        Bool::Value(Box::new(Value::Ternary(
            Box::new(Bool::Equal(
                Expr::Value(Box::new(Value::Expr(Expr::Number(0)))),
                Expr::Value(Box::new(Value::Expr(Expr::Number(1))))
            )),
            Box::new(Value::Bool(Bool::True)),
            Box::new(t0)
        )))
    );
}

fn assign(n: &str, e: Expr) -> Command {
    Command::Assignment(Assignment::Single(var(n), Value::Expr(e)))
}

#[test]
fn law_calc_concat_two_assignments() {
    let c1 = assign("x", Expr::Op(Box::new(ev("x")), Opcode::Add, Box::new(Expr::Number(1))));
    let c2 = assign("x", Expr::Op(Box::new(ev("x")), Opcode::Mul, Box::new(Expr::Number(2))));
    let q = Bool::Equal(ev("x"), Expr::Number(4));
    let both = vec![c1.clone(), c2.clone()];
    let whole = calc_prefix(&both, 2, q.clone()).unwrap();
    let (q1, o1) = get_pre_command(&c2, q).unwrap();
    let (p, o2) = get_pre_command(&c1, q1).unwrap();
    assert_eq!(whole.0, p);
    assert!(o1.is_empty() && o2.is_empty() && whole.1.is_empty());
    let plus_one = Expr::Value(Box::new(Value::Expr(Expr::Op(Box::new(ev("x")), Opcode::Add, Box::new(Expr::Number(1))))));
    assert_eq!(
        p,
        Bool::Equal(
            Expr::Value(Box::new(Value::Expr(Expr::Op(Box::new(plus_one), Opcode::Mul, Box::new(Expr::Number(2)))))),
            Expr::Number(4)
        )
    );
}

fn func(name: &str, content: Vec<Command>) -> Function {
    Function {
        name: String::from(name),
        content,
        input: vec![Binding::Declaration(var("a"), Type::I32, false)],
        output: Type::Unit,
        precondition: Bool::True,
        postcondition: a_eq(1),
        return_value: Value::Unit,
    }
}

#[test]
fn law_simplify_retypes_only_types() {
    let unknown = Command::Binding(Binding::Assignment(var("x"), Type::Unknown, Value::Expr(Expr::Number(1)), false));
    let flag = Command::Binding(Binding::Assignment(var("y"), Type::Unknown, Value::Bool(Bool::True), true));
    let p = Program { content: vec![func("f", vec![unknown, flag])] };
    let q = simplify(p);
    let want = func(
        "f",
        vec![
            Command::Binding(Binding::Assignment(var("x"), Type::I32, Value::Expr(Expr::Number(1)), false)),
            Command::Binding(Binding::Assignment(var("y"), Type::Bool, Value::Bool(Bool::True), true)),
        ],
    );
    assert_eq!(q, Program { content: vec![want] });
}

#[test]
fn law_simplify_known_unchanged() {
    let c = Command::Binding(Binding::Assignment(var("x"), Type::I32, Value::Expr(Expr::Number(1)), false));
    let p = Program { content: vec![func("f", vec![c.clone()]), func("g", vec![])] };
    let q = simplify(Program { content: vec![func("f", vec![c]), func("g", vec![])] });
    assert_eq!(q, p);
}

#[test]
fn law_frames_grow_example() {
    let c1 = Command::Binding(Binding::Assignment(var("x"), Type::I32, Value::Expr(Expr::Number(1)), false));
    let c2 = Command::Binding(Binding::Declaration(var("y"), Type::Bool, false));
    let f = func("f", vec![c1.clone(), c2.clone()]);
    let p = Program { content: vec![f.clone(), func("g", vec![])] };
    let frames = get_context_func(f, p);
    assert_eq!(frames.len(), 2);
    assert_eq!(frames[0].command, c1);
    assert_eq!(frames[1].command, c2);
    assert_eq!(frames[0].vars.len(), 1);
    assert_eq!(frames[1].vars.len(), 2);
    assert_eq!(frames[1].vars[0], frames[0].vars[0]);
    assert_eq!(frames[0].funcs, frames[1].funcs);
    assert_eq!(frames[0].funcs.len(), 1);
    assert!(frames[0].funcs[0].content.is_empty());
    for v in frames[0].vals.iter() {
        assert!(frames[1].vals.contains(v));
    }
}

#[test]
fn law_swap_removes_variable() {
    let b = Bool::And(Box::new(a_eq(1)), Box::new(Bool::GreaterThan(ev("a"), ev("c"))));
    let r = b.swap(var("a"), Value::Expr(Expr::Number(5)));
    let vars = r.get_variables();
    assert!(!vars.contains(&var("a")));
    assert!(vars.contains(&var("c")));
}

#[test]
fn law_simplify_idempotent_example() {
    let unknown = Command::Binding(Binding::Assignment(var("x"), Type::Unknown, Value::Expr(Expr::Number(1)), false));
    let again = Command::Binding(Binding::Assignment(var("z"), Type::Unknown, val("x"), false));
    let p = Program { content: vec![func("f", vec![unknown, again])] };
    let once = simplify(p);
    let twice = simplify(once.clone());
    assert_eq!(twice, once);
}

#[test]
fn calculate_gives_code_reversed() {
    let c1 = assign("a", Expr::Number(1));
    let c2 = assign("a", Expr::Number(2));
    let block = prove_block(Bool::True, vec![c1.clone(), c2.clone()], a_eq(2));
    let (b, _) = block.calculate().unwrap();
    assert_eq!(b.code, vec![c2, c1]);
    assert_eq!(b.precondition, Bool::True);
}

fn func_post(name: &str, post: Bool) -> Function {
    Function {
        name: String::from(name),
        content: vec![assign("a", Expr::Number(1))],
        input: vec![Binding::Declaration(var("a"), Type::I32, true)],
        output: Type::Unit,
        precondition: Bool::True,
        postcondition: post,
        return_value: Value::Unit,
    }
}

#[test]
fn law_correct_concat_example() {
    let good = func_post("good", a_eq(1));
    let bad = func_post("bad", a_eq(2));
    let both = Program { content: vec![good.clone(), bad.clone()] };
    let first = prove(Program { content: vec![good.clone()] }, vec![]);
    let second = prove(Program { content: vec![bad.clone()] }, vec![]);
    assert!(first);
    assert!(!second);
    assert_eq!(prove(both, vec![]), first && second);
}

#[test]
fn law_correct_selected_example() {
    let good = func_post("good", a_eq(1));
    let bad = func_post("bad", a_eq(2));
    let both = Program { content: vec![good.clone(), bad.clone()] };
    assert!(prove(both.clone(), vec![String::from("good")]));
    assert!(!prove(both.clone(), vec![String::from("bad")]));
    assert!(prove(both, vec![String::from("absent")]));
}
