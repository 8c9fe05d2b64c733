use rustp::ast;
use rustp::simplifier::{TypeMap, find_type_val, simplify_function, unknown_type_bindings, unknown_type_single};

#[test]
fn unknown_type_single1() {
    assert_eq!(
        unknown_type_single(ast::Command::Binding(ast::Binding::Assignment(
            ast::Variable::Named(String::from("b")),
            ast::Type::Unknown,
            ast::Value::Expr(ast::Expr::Number(1)),
            false
        ))),
        Some(ast::Command::Binding(ast::Binding::Assignment(
            ast::Variable::Named(String::from("b")),
            ast::Type::Unknown,
            ast::Value::Expr(ast::Expr::Number(1)),
            false
        )))
    );
}

#[test]
fn unknown_type_single2() {
    assert_eq!(
        unknown_type_single(ast::Command::Binding(ast::Binding::Assignment(
            ast::Variable::Named(String::from("b")),
            ast::Type::I32,
            ast::Value::Expr(ast::Expr::Number(1)),
            false
        ))),
        None
    );
}

#[test]
fn unknown_type_single3() {
    let mut temp = Vec::new();
    temp.push(ast::Command::Binding(ast::Binding::Declaration(
        ast::Variable::Named("a".to_string()),
        ast::Type::Unknown,
        false,
    )));
    temp.push(ast::Command::Binding(ast::Binding::Declaration(
        ast::Variable::Named("b".to_string()),
        ast::Type::Unknown,
        true,
    )));
    assert_eq!(
        unknown_type_single(ast::Command::Binding(ast::Binding::Tuple(temp.clone()))),
        Some(ast::Command::Binding(ast::Binding::Tuple(temp)))
    );
}

#[test]
fn unknown_type_single4() {
    let mut temp = Vec::new();
    temp.push(ast::Command::Binding(ast::Binding::Declaration(
        ast::Variable::Named("a".to_string()),
        ast::Type::Unknown,
        false,
    )));
    temp.push(ast::Command::Binding(ast::Binding::Declaration(
        ast::Variable::Named("b".to_string()),
        ast::Type::I32,
        true,
    )));
    assert_eq!(
        unknown_type_single(ast::Command::Binding(ast::Binding::Tuple(temp.clone()))),
        Some(ast::Command::Binding(ast::Binding::Tuple(temp)))
    );
}

#[test]
fn unknown_type_single5() {
    let mut temp = Vec::new();
    temp.push(ast::Command::Binding(ast::Binding::Declaration(
        ast::Variable::Named("a".to_string()),
        ast::Type::Bool,
        false,
    )));
    temp.push(ast::Command::Binding(ast::Binding::Declaration(
        ast::Variable::Named("b".to_string()),
        ast::Type::I32,
        true,
    )));
    assert_eq!(
        unknown_type_single(ast::Command::Binding(ast::Binding::Tuple(temp))),
        None
    );
}

#[test]
fn unknown_type_bindings1() {
    let mut temp = Vec::new();
    temp.push(ast::Command::Binding(ast::Binding::Declaration(
        ast::Variable::Named("a".to_string()),
        ast::Type::Bool,
        false,
    )));
    temp.push(ast::Command::Binding(ast::Binding::Declaration(
        ast::Variable::Named("b".to_string()),
        ast::Type::I32,
        true,
    )));

    let mut f = Vec::new();
    f.push(ast::Command::Binding(ast::Binding::Tuple(temp)));

    let t = ast::Command::Block(ast::Block::ForRange(
        ast::Variable::Named("i".to_string()),
        ast::Value::Expr(ast::Expr::Number(1)),
        ast::Value::Expr(ast::Expr::Number(1)),
        f, ast::Bool::True));

    let mut to_test = Vec::new();
    to_test.push(t);

    let check: Vec<ast::Command> = Vec::new();
    assert_eq!(unknown_type_bindings(to_test), check);
}

#[test]
fn unknown_type_bindings2() {
    let mut temp = Vec::new();
    temp.push(ast::Command::Binding(ast::Binding::Declaration(
        ast::Variable::Named("a".to_string()),
        ast::Type::Unknown,
        false,
    )));
    temp.push(ast::Command::Binding(ast::Binding::Declaration(
        ast::Variable::Named("b".to_string()),
        ast::Type::I32,
        true,
    )));

    let mut f = Vec::new();
    f.push(ast::Command::Binding(ast::Binding::Tuple(temp)));

    let t = ast::Command::Block(ast::Block::ForRange(
        ast::Variable::Named("i".to_string()),
        ast::Value::Expr(ast::Expr::Number(1)),
        ast::Value::Expr(ast::Expr::Number(1)),
        f, ast::Bool::True));

    let mut to_test = Vec::new();
    to_test.push(t);

    assert_eq!(unknown_type_bindings(to_test.clone()), to_test);
}

#[test]
fn unknown_type_bindings3() {
    let mut temp = Vec::new();
    temp.push(ast::Command::Binding(ast::Binding::Declaration(
        ast::Variable::Named("a".to_string()),
        ast::Type::I32,
        false,
    )));
    temp.push(ast::Command::Binding(ast::Binding::Declaration(
        ast::Variable::Named("b".to_string()),
        ast::Type::I32,
        true,
    )));

    let mut f = Vec::new();
    f.push(ast::Command::Binding(ast::Binding::Tuple(temp)));

    let mut x = Vec::new();
    x.push(f.clone());

    let t = ast::Command::Block(ast::Block::If(Vec::new(), x.clone(), f));

    let mut to_test = Vec::new();
    to_test.push(t);

    let check: Vec<ast::Command> = Vec::new();
    assert_eq!(unknown_type_bindings(to_test), check);
}

#[test]
fn unknown_type_bindings4() {
    let mut temp = Vec::new();
    temp.push(ast::Command::Binding(ast::Binding::Declaration(
        ast::Variable::Named("a".to_string()),
        ast::Type::Unknown,
        false,
    )));
    temp.push(ast::Command::Binding(ast::Binding::Declaration(
        ast::Variable::Named("b".to_string()),
        ast::Type::I32,
        true,
    )));

    let mut f = Vec::new();
    f.push(ast::Command::Binding(ast::Binding::Tuple(temp)));

    let mut x = Vec::new();
    x.push(f.clone());

    let t = ast::Command::Block(ast::Block::If(Vec::new(), x.clone(), f));

    let mut to_test = Vec::new();
    to_test.push(t);

    assert_eq!(unknown_type_bindings(to_test.clone()), to_test);
}

#[test]
fn find_type_val1() {
    let state = TypeMap::new();
    let funcs: Vec<ast::Function> = Vec::new();

    let val = ast::Value::Expr(ast::Expr::Number(12));

    assert_eq!(find_type_val(&val, &state, &funcs), ast::Type::I32)
}

#[test]
fn find_type_val2() {
    let state = TypeMap::new();
    let funcs: Vec<ast::Function> = Vec::new();

    let val = ast::Value::Bool(ast::Bool::True);

    assert_eq!(find_type_val(&val, &state, &funcs), ast::Type::Bool)
}

#[test]
fn find_type_val3() {
    let mut state = TypeMap::new();
    let funcs: Vec<ast::Function> = Vec::new();

    state.insert(ast::Variable::Named(String::from("y")), ast::Type::I32);

    let val = ast::Value::Variable(ast::Variable::Named(String::from("y")));

    assert_eq!(find_type_val(&val, &state, &funcs), ast::Type::I32)
}

#[test]
fn find_type_val4() {
    let state = TypeMap::new();
    let funcs: Vec<ast::Function> = Vec::new();

    let mut t = Vec::new();

    t.push(ast::Value::Expr(ast::Expr::Number(12)));
    t.push(ast::Value::Variable(ast::Variable::Named(String::from(
        "b",
    ))));
    let val = ast::Value::Array(t);

    assert_eq!(
        find_type_val(&val, &state, &funcs),
        ast::Type::Array(Box::new(ast::Type::I32), 2)
    )
}

#[test]
fn find_type_val5() {
    let state = TypeMap::new();
    let funcs: Vec<ast::Function> = Vec::new();

    let mut t = Vec::new();

    t.push(ast::Value::Variable(ast::Variable::Named(String::from(
        "b",
    ))));
    t.push(ast::Value::Expr(ast::Expr::Number(12)));
    let val = ast::Value::Array(t);

    assert_eq!(
        find_type_val(&val, &state, &funcs),
        ast::Type::Array(Box::new(ast::Type::I32), 2)
    )
}

#[test]
fn find_type_val6() {
    let mut state = TypeMap::new();
    let funcs: Vec<ast::Function> = Vec::new();

    state.insert(ast::Variable::Named(String::from("y")), ast::Type::Bool);

    let mut t = Vec::new();

    t.push(ast::Value::Expr(ast::Expr::Number(12)));
    t.push(ast::Value::Bool(ast::Bool::True));
    t.push(ast::Value::Variable(ast::Variable::Named(String::from(
        "y",
    ))));
    let val = ast::Value::Tuple(t);

    let mut types = Vec::new();
    types.push(ast::Type::I32);
    types.push(ast::Type::Bool);
    types.push(ast::Type::Bool);

    assert_eq!(find_type_val(&val, &state, &funcs), ast::Type::Tuple(types))
}

#[test]
fn find_type_val7() {
    let mut state = TypeMap::new();
    let funcs: Vec<ast::Function> = Vec::new();

    state.insert(
        ast::Variable::Named(String::from("y")),
        ast::Type::Reference(Box::new(ast::Type::Bool)),
    );
    let mut t = Vec::new();

    t.push(ast::Value::ReferenceMutable(Box::new(ast::Value::Expr(
        ast::Expr::Number(12),
    ))));
    t.push(ast::Value::Reference(Box::new(ast::Value::Bool(
        ast::Bool::True,
    ))));
    t.push(ast::Value::Variable(ast::Variable::Named(String::from(
        "y",
    ))));
    let val = ast::Value::Tuple(t);

    let mut types = Vec::new();
    types.push(ast::Type::ReferenceMutable(Box::new(ast::Type::I32)));
    types.push(ast::Type::Reference(Box::new(ast::Type::Bool)));
    types.push(ast::Type::Reference(Box::new(ast::Type::Bool)));

    assert_eq!(find_type_val(&val, &state, &funcs), ast::Type::Tuple(types))
}

#[test]
fn find_type_val8() {
    let state = TypeMap::new();
    let funcs: Vec<ast::Function> = Vec::new();

    let val = ast::Value::Dereference(Box::new(ast::Value::Reference(Box::new(
        ast::Value::Expr(ast::Expr::Number(12)),
    ))));

    assert_eq!(find_type_val(&val, &state, &funcs), ast::Type::I32)
}

#[test]
fn find_type_val9() {
    let state = TypeMap::new();
    let mut funcs: Vec<ast::Function> = Vec::new();

    let val = ast::Value::FunctionCall(String::from("test"), Vec::new());

    let f = ast::Function {
        name: String::from("test"),
        content: Vec::new(),
        input: Vec::new(),
        output: ast::Type::I32,
        precondition: ast::Bool::True,
        postcondition: ast::Bool::True,
        return_value: ast::Value::Unit,
    };

    funcs.push(f);

    assert_eq!(find_type_val(&val, &state, &funcs), ast::Type::I32)
}

#[test]
fn simplify_function1() {
    let mut t = Vec::new();
    t.push(ast::Binding::Declaration(
        ast::Variable::Named(String::from("a")),
        ast::Type::I32,
        false,
    ));

    let mut content = Vec::new();
    content.push(ast::Command::Binding(ast::Binding::Assignment(
        ast::Variable::Named(String::from("x")),
        ast::Type::Unknown,
        ast::Value::Variable(ast::Variable::Named(String::from("a"))),
        false,
    )));

    let f = ast::Function {
        name: String::from("b"),
        content: content,
        input: t.clone(),
        output: ast::Type::Unit,
        precondition: ast::Bool::True,
        postcondition: ast::Bool::True,
        return_value: ast::Value::Unit,
    };

    let mut content2 = Vec::new();
    content2.push(ast::Command::Binding(ast::Binding::Assignment(
        ast::Variable::Named(String::from("x")),
        ast::Type::I32,
        ast::Value::Variable(ast::Variable::Named(String::from("a"))),
        false,
    )));

    let f2 = ast::Function {
        name: String::from("b"),
        content: content2,
        input: t.clone(),
        output: ast::Type::Unit,
        precondition: ast::Bool::True,
        postcondition: ast::Bool::True,
        return_value: ast::Value::Unit,
    };

    let funcs: &Vec<ast::Function> = &Vec::new();

    assert_eq!(simplify_function(f, &funcs), f2);
}
