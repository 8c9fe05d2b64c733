use rustp::ast::{Assignment, Binding, Block, Bool, Command, Expr, Function, Type, Value, Variable};
use rustp::parser::astp::{array_content, array_type, assert_annotation, assignment_single, assignment_tuple_single, assignment_tuple_unpack, binding_assignment, binding_assignment_tuple_multiple, binding_assignment_tuple_single, binding_declaration, binding_declaration_tuple, block, command, dereference, for_parse, function, function_call, function_input, function_inputs, if_else, loop_invariant, postcondition, precondition, prove_start, reference, reference_mut, single_if, take_while_not_newline, tuple_type, tuple_unpack_left, tuple_values, type_def, variable, variable_array_elem, variable_tuple_elem, while_parse};

#[test]
fn function_input1() {
    assert!(
        function_input("a: i32").unwrap().1
            == Binding::Declaration(
                Variable::Named("a".to_string()),
                Type::I32,
                false
            )
    );
}

#[test]
fn function_inputs1() {
    let mut t = Vec::new();
    t.push(Binding::Declaration(
        Variable::Named("a".to_string()),
        Type::I32,
        false,
    ));
    t.push(Binding::Declaration(
        Variable::Named("b".to_string()),
        Type::I32,
        false,
    ));
    t.push(Binding::Declaration(
        Variable::Named("c".to_string()),
        Type::Bool,
        true,
    ));
    assert!(function_inputs("a: i32, b: i32, mut c: bool").unwrap().1 == t);
}

#[test]
fn precondition1() {
    assert!(precondition("//%precondition false\n").unwrap().1 == Bool::False);
    assert!(
        precondition("//%precondition false && true\n").unwrap().1
            == Bool::And(Box::new(Bool::False), Box::new(Bool::True))
    );
    assert!(
        precondition("//%precondition a == 143\n").unwrap().1
            == Bool::Equal(
                Expr::Value(Box::new(Value::Variable(Variable::Named(
                    "a".to_string()
                )))),
                Expr::Number(143)
            )
    );
}

#[test]
fn postcondition1() {
    assert!(postcondition("//%postcondition false\n").unwrap().1 == Bool::False);
    assert!(
        postcondition("//%postcondition false && true\n").unwrap().1
            == Bool::And(Box::new(Bool::False), Box::new(Bool::True))
    );

    assert!(
        postcondition("//%postcondition a == 143\n").unwrap().1
            == Bool::Equal(
                Expr::Value(Box::new(Value::Variable(Variable::Named(
                    "a".to_string()
                )))),
                Expr::Number(143)
            )
    );
}

#[test]
fn function1() {
    assert!(function("fn a () {}").unwrap().0 == "");
    assert!(function("fn a ( ) {}").unwrap().0 == "");
    assert!(function("fn a ( ) { }").unwrap().0 == "");
    assert!(function("fn  a  ( ) { }").unwrap().0 == "");
    assert!(function("fn a () {let a: i32 = 14;}").unwrap().0 == "");
    assert!(
        function("fn a () {let a: i32 = 14; let c: i32 = 1 + b;}")
            .unwrap()
            .0
            == ""
    );
    let mut content = Vec::new();
    content.push(Command::Binding(Binding::Assignment(
        Variable::Named("a".to_string()),
        Type::I32,
        Value::Expr(Expr::Number(14)),
        false,
    )));
    let a = function("fn a () {let a: i32 = 14;}").unwrap().1;

    let b = Function {
        name: "a".to_string(),
        content: content,
        input: Vec::new(),
        output: Type::Unit,
        precondition: Bool::True,
        postcondition: Bool::True,
        return_value: Value::Unit,
    };

    assert_eq!(a, b);
}

#[test]
fn function2() {
    assert!(function("fn a (a: i32) {}").unwrap().0 == "");
    assert!(function("fn a (b: bool, a:i32 ) {}").unwrap().0 == "");
    assert!(function("fn a ( ) -> i32{ }").unwrap().0 == "");
    assert!(function("fn  a  (b: bool ) -> bool{ }").unwrap().0 == "");
    let mut content = Vec::new();
    content.push(Command::Binding(Binding::Assignment(
        Variable::Named("a".to_string()),
        Type::I32,
        Value::Expr(Expr::Number(14)),
        false,
    )));

    let mut input = Vec::new();
    input.push(Binding::Declaration(
        Variable::Named("c".to_string()),
        Type::I32,
        false,
    ));
    input.push(Binding::Declaration(
        Variable::Named("d".to_string()),
        Type::Bool,
        false,
    ));
    let a = function("fn a (c: i32, d: bool) -> bool {let a: i32 = 14;}")
        .unwrap()
        .1;

    let b = Function {
        name: "a".to_string(),
        content: content,
        input: input,
        output: Type::Bool,
        precondition: a.precondition.clone(),
        postcondition: Bool::True,
        return_value: Value::Unit,
    };

    assert_eq!(a, b);
}

#[test]
fn function3() {
    let mut content = Vec::new();
    content.push(Command::Binding(Binding::Assignment(
        Variable::Named("a".to_string()),
        Type::I32,
        Value::Expr(Expr::Number(14)),
        false,
    )));

    let mut input = Vec::new();
    input.push(Binding::Declaration(
        Variable::Named("c".to_string()),
        Type::I32,
        false,
    ));
    input.push(Binding::Declaration(
        Variable::Named("d".to_string()),
        Type::Bool,
        false,
    ));
    let a = function("//%precondition false && false\n//%postcondition (a == 12) && false\n fn a (c: i32, d: bool) -> bool {let a: i32 = 14;}")
        .unwrap()
        .1;

    let b = Function {
        name: "a".to_string(),
        content: content,
        input: input,
        output: Type::Bool,
        precondition: a.precondition.clone(),
        postcondition: Bool::And(
            Box::new(Bool::Equal(
                Expr::Value(Box::new(Value::Variable(Variable::Named(
                    "a".to_string(),
                )))),
                Expr::Number(12),
            )),
            Box::new(Bool::False),
        ),
        return_value: Value::Unit,
    };

    assert_eq!(a, b);
}

#[test]
fn function4() {
    let mut content = Vec::new();
    content.push(Command::Binding(Binding::Assignment(
        Variable::Named("a".to_string()),
        Type::I32,
        Value::Expr(Expr::Number(14)),
        false,
    )));

    let mut input = Vec::new();
    input.push(Binding::Declaration(
        Variable::Named("c".to_string()),
        Type::I32,
        false,
    ));
    input.push(Binding::Declaration(
        Variable::Named("d".to_string()),
        Type::Bool,
        false,
    ));
    let a = function("//%precondition false && false\n//%postcondition (a == 12) && false\n fn a (c: i32, d: bool) -> bool {let a: i32 = 14; 13}")
        .unwrap()
        .1;

    let b = Function {
        name: "a".to_string(),
        content: content,
        input: input,
        output: Type::Bool,
        precondition: a.precondition.clone(),
        postcondition: Bool::And(
            Box::new(Bool::Equal(
                Expr::Value(Box::new(Value::Variable(Variable::Named(
                    "a".to_string(),
                )))),
                Expr::Number(12),
            )),
            Box::new(Bool::False),
        ),
        return_value: Value::Expr(Expr::Number(13)),
    };

    assert_eq!(a, b);
}

#[test]
fn type_def1() {
    assert!(type_def("i32").unwrap().1 == Type::I32);
    assert!(type_def("bool").unwrap().1 == Type::Bool);
    assert!(type_def("&i32").unwrap().1 == Type::Reference(Box::new(Type::I32)));
    assert!(
        type_def("&mut i32").unwrap().1 == Type::ReferenceMutable(Box::new(Type::I32))
    );
}

#[test]
fn block1() {
    assert!(block("let x: i32 = 1;").unwrap().0 == "");
    assert!(block("let x: i32 = 1;//%assert a < 143\n").unwrap().0 == "");
}

#[test]
fn tests_take_while_not_newline1() {
    assert!(take_while_not_newline("ababab\n").unwrap().0 == "\n");
    assert!(take_while_not_newline("ababab").unwrap().0 == "");
    assert!(take_while_not_newline("ababab").unwrap().1 == "ababab");
}

#[test]
fn tests_command1() {
    assert!(command("//%assert b == 143 % 4\n").unwrap().0 == "");
}

#[test]
fn tests_command2() {
    assert!(command("let a: i32 = 14;").unwrap().0 == "");
}

#[test]
fn array_content1() {
    assert!(array_content("[1,]").is_err());
    assert!(array_content("[1,2]").unwrap().0 == "");
    let mut temp = Vec::new();
    temp.push(Value::Expr(Expr::Number(1)));
    temp.push(Value::Expr(Expr::Number(2)));
    temp.push(Value::Expr(Expr::Number(4)));

    assert!(array_content("[1,2, 4]").unwrap().1 == Value::Array(temp));
}

#[test]
fn array_type1() {
    assert!(array_type("[i32,]").is_err());
    assert!(array_type("[i32;]").is_err());
    assert!(array_type("[i32;4]").unwrap().1 == Type::Array(Box::new(Type::I32), 4));
    assert!(array_type("[bool;4]").unwrap().1 == Type::Array(Box::new(Type::Bool), 4));
}

#[test]
fn assignment_single1() {
    assert!(assignment_single("a = 12;").unwrap().0 == "");
    assert!(
        assignment_single("b = 12;").unwrap().1
            == Command::Assignment(Assignment::Single(
                Variable::Named("b".to_string()),
                Value::Expr(Expr::Number(12))
            ))
    );
    assert!(
        assignment_single("b = true;").unwrap().1
            == Command::Assignment(Assignment::Single(
                Variable::Named("b".to_string()),
                Value::Bool(Bool::True)
            ))
    );
    assert!(assignment_single("a = (12, false, a);").unwrap().0 == "");
}

#[test]
fn assignment_single2() {
    assert!(assignment_single("a[1] = 12;").unwrap().0 == "");
    assert!(
        assignment_single("b[3] = 12;").unwrap().1
            == Command::Assignment(Assignment::Single(
                Variable::ArrayElem(
                    "b".to_string(),
                    Box::new(Value::Expr(Expr::Number(3)))
                ),
                Value::Expr(Expr::Number(12))
            ))
    );

    let mut temp = Vec::new();
    temp.push(Value::Expr(Expr::Number(12)));
    temp.push(Value::Expr(Expr::Number(3)));
    temp.push(Value::Expr(Expr::Number(1)));
    assert!(
        assignment_single("b = [12, 3, 1];").unwrap().1
            == Command::Assignment(Assignment::Single(
                Variable::Named("b".to_string(),),
                Value::Array(temp)
            ))
    );
}

#[test]
fn assignment_tuple_unpack1() {
    assert!(assignment_tuple_unpack("(x,) = (12,);").unwrap().0 == "");
    assert!(assignment_tuple_unpack("(x,y) = (12, true);").unwrap().0 == "");
    assert!(
        assignment_tuple_unpack("(x,y, _) = (12, true, false);")
            .unwrap()
            .0
            == ""
    );
    let mut temp = Vec::new();
    temp.push(Assignment::Single(
        Variable::Named("x".to_string()),
        Value::Expr(Expr::Number(12)),
    ));
    temp.push(Assignment::Single(
        Variable::Named("y".to_string()),
        Value::Bool(Bool::True),
    ));
    temp.push(Assignment::Single(
        Variable::Empty,
        Value::Bool(Bool::False),
    ));

    assert!(
        assignment_tuple_unpack("(x,y, _) = (12, true, false);")
            .unwrap()
            .1
            == Command::Assignment(Assignment::Tuple(temp))
    );
}

#[test]
fn if_else1() {
    assert!(if_else("if a == 12 {let b: i32 = 3;}").unwrap().0 == "");
    assert!(
        if_else("if a == 12 {let b: i32 = 3;//%assert b == 3\n}")
            .unwrap()
            .0
            == ""
    );
}

#[test]
fn if_else2() {
    assert!(
        if_else(
            "if a == 12 {let b: i32 = 3;} else if a == 13 {let b: i32 = 4;} else {let b: i32 = 1;}"
        )
        .unwrap()
        .0 == ""
    );
}

#[test]
fn if_else3() {
    let a = if_else(
        "if a == 12 {let b: i32 = 3;} else if a == 13 {let b: i32 = 4;} else {let b: i32 = 1;}",
    )
    .unwrap()
    .1;

    let mut conds = Vec::new();
    let mut comms = Vec::new();
    let mut comms_1 = Vec::new();
    let mut comms_2 = Vec::new();

    let mut el = Vec::new();

    conds.push(Bool::Equal(
        Expr::Value(Box::new(Value::Variable(Variable::Named(
            "a".to_string(),
        )))),
        Expr::Number(12),
    ));

    conds.push(Bool::Equal(
        Expr::Value(Box::new(Value::Variable(Variable::Named(
            "a".to_string(),
        )))),
        Expr::Number(13),
    ));

    comms_1.push(Command::Binding(Binding::Assignment(
        Variable::Named("b".to_string()),
        Type::I32,
        Value::Expr(Expr::Number(3)),
        false,
    )));
    comms_2.push(Command::Binding(Binding::Assignment(
        Variable::Named("b".to_string()),
        Type::I32,
        Value::Expr(Expr::Number(4)),
        false,
    )));

    comms.push(comms_1);
    comms.push(comms_2);

    el.push(Command::Binding(Binding::Assignment(
        Variable::Named("b".to_string()),
        Type::I32,
        Value::Expr(Expr::Number(1)),
        false,
    )));

    let b = Command::Block(Block::If(conds, comms, el));

    assert!(a == b);
}

#[test]
fn if_else4() {
    assert!(if_else("if a == 14 {\nlet c: i32 = 3;\n}").unwrap().0 == "");
    assert!(
        if_else("if a == 14 {\nlet c: i32 = 3;\n} else if a == 13 {\n   let c: i32 = a + 43;\n}")
            .unwrap()
            .0
            == ""
    );
    assert!(if_else("if a == 14 {\nlet c: i32 = 3;\n} else if a == 13 {\n   let c: i32 = a + 43;\n} else {\n   let c: i32 = a + 123;\n}").unwrap().0 == "");
}

#[test]
fn single_if1() {
    assert!(single_if("if a == 12 {let b: i32 = 3;}").unwrap().0 == "");
    assert!(
        single_if("if a == 12 {let b: i32 = 3;//%assert b == 3\n}")
            .unwrap()
            .0
            == ""
    );
}

#[test]
fn tests_assert1() {
    assert!(assert_annotation("//%assert 143 == 12\n").is_ok());
    assert!(assert_annotation("//%assert 143 - 4 < 2\n").unwrap().0 == "");
    assert!(assert_annotation("//%assert true\n").unwrap().0 == "");
}

#[test]
fn loop_invariant1() {
    assert!(loop_invariant("//%invariant 143 == 12\n").is_ok());
    assert!(loop_invariant("//%invariant 143 - 4 < 2\n").unwrap().0 == "");
    assert!(loop_invariant("//%invariant true\n").unwrap().0 == "");
}

#[test]
fn tests_prove_start1() {
    assert!(prove_start("//%").unwrap().0 == "");
    assert!(prove_start("/%").is_err());
}

#[test]
fn function_call1() {
    assert!(function_call("abba()").unwrap().0 == "");
    assert!(function_call("abba(a, b)").unwrap().0 == "");
    assert!(function_call("abba(12, a, true)").unwrap().0 == "");
    assert!(function_call("xd(32, true)").unwrap().0 == "");
}

#[test]
fn tests_variable1() {
    assert!(variable("1").is_err());
    assert!(variable("a").is_ok());
    assert!(variable("abc").unwrap().0 == "");
    assert!(variable("abc").unwrap().1 == Variable::Named("abc".to_string()));
}

#[test]
fn tests_variable2() {
    assert!(variable("_a_b").is_ok());
    assert!(variable("_a_b_c_").unwrap().0 == "");
    assert!(variable("_a_b_c_").unwrap().1 == Variable::Named("_a_b_c_".to_string()));
}

#[test]
fn variable3() {
    assert!(variable("true").is_err());
    assert!(variable("false").is_err());
}

#[test]
fn variable_4() {
    assert!(variable("a[]").unwrap().0 == "[]");
    assert!(variable("a[1]").is_ok());
    assert!(variable("abc[a]").unwrap().0 == "");
    assert!(
        variable("abc[c]").unwrap().1
            == Variable::ArrayElem(
                "abc".to_string(),
                Box::new(Value::Variable(Variable::Named("c".to_string())))
            )
    );
}

#[test]
fn variable_5() {
    assert!(variable("a.").unwrap().0 == ".");
    assert!(variable("a.1").is_ok());
    assert!(variable("abc.a").unwrap().0 == "");
    assert!(
        variable("abc.c").unwrap().1
            == Variable::TupleElem(
                "abc".to_string(),
                Box::new(Value::Variable(Variable::Named("c".to_string())))
            )
    );
}

#[test]
fn variable_array_elem1() {
    assert!(variable_array_elem("a[]").is_err());
    assert!(variable_array_elem("a[1]").is_ok());
    assert!(variable_array_elem("abc[a]").unwrap().0 == "");
    assert!(
        variable_array_elem("abc[c]").unwrap().1
            == Variable::ArrayElem(
                "abc".to_string(),
                Box::new(Value::Variable(Variable::Named("c".to_string())))
            )
    );
}

#[test]
fn variable_tuple_elem1() {
    assert!(variable_tuple_elem("a.").is_err());
    assert!(variable_tuple_elem("a.1").is_ok());
    assert!(variable_tuple_elem("abc.a").unwrap().0 == "");
    assert!(
        variable_tuple_elem("abc.c").unwrap().1
            == Variable::TupleElem(
                "abc".to_string(),
                Box::new(Value::Variable(Variable::Named("c".to_string())))
            )
    );
}

#[test]
fn tests_binding_assignment1() {
    assert!(binding_assignment("let x: i32 = 12;").unwrap().0 == "");
    assert!(binding_assignment("let x: i32 = 12 * 4;").unwrap().0 == "");
    assert!(binding_assignment("let y: i32 = 12 - 5 * 6;").unwrap().0 == "");
    assert!(binding_assignment("let z = 3").is_err());
    assert!(binding_assignment("let z = 3;").is_err());
    assert_eq!(
        binding_assignment("let mut z: i32 = 3;").unwrap().1,
        Command::Binding(Binding::Assignment(
            Variable::Named("z".to_string()),
            Type::I32,
            Value::Expr(Expr::Number(3)),
            true
        ))
    );
    // This one will be validated later on?
    // Or can we just assume that the code we are getting is correct Rust?
    assert!(binding_assignment("let z: bool = 3;").is_err());
    assert_eq!(
        binding_assignment("let z: bool = true;").unwrap().1,
        Command::Binding(Binding::Assignment(
            Variable::Named("z".to_string()),
            Type::Bool,
            Value::Bool(Bool::True),
            false
        ))
    );
    assert_eq!(binding_assignment("let c: i32 = a + 43;").unwrap().0, "");
    assert_eq!(
        binding_assignment("let c: (i32, bool) = (12, false);")
            .unwrap()
            .0,
        ""
    );
}

#[test]
fn binding_assigment2() {
    let mut temp = Vec::new();
    temp.push(Value::Expr(Expr::Number(1)));
    temp.push(Value::Expr(Expr::Number(2)));
    temp.push(Value::Expr(Expr::Number(4)));

    assert!(
        binding_assignment("let x: [i32; 3] = [1,2, 4];").unwrap().1
            == Command::Binding(Binding::Assignment(
                Variable::Named("x".to_string()),
                Type::Array(Box::new(Type::I32), 3),
                Value::Array(temp),
                false
            ))
    );

    let mut temp = Vec::new();
    temp.push(Value::Expr(Expr::Number(1)));
    temp.push(Value::Expr(Expr::Number(2)));
    temp.push(Value::Expr(Expr::Number(4)));

    assert!(
        binding_assignment("let mut x: [i32; 3] = [1,2, 4];")
            .unwrap()
            .1
            == Command::Binding(Binding::Assignment(
                Variable::Named("x".to_string()),
                Type::Array(Box::new(Type::I32), 3),
                Value::Array(temp),
                true
            ))
    );

    let mut temp = Vec::new();
    temp.push(Value::Expr(Expr::Number(1)));
    temp.push(Value::Expr(Expr::Number(2)));
    temp.push(Value::Expr(Expr::Number(4)));

    assert!(
        binding_assignment("let mut x: [i32; 3] = [1,2, 4];")
            .unwrap()
            .1
            == Command::Binding(Binding::Assignment(
                Variable::Named("x".to_string()),
                Type::Array(Box::new(Type::I32), 3),
                Value::Array(temp),
                true
            ))
    );
}

#[test]
fn binding_assigment3() {
    let mut temp = Vec::new();
    temp.push(Value::Expr(Expr::Number(1)));
    temp.push(Value::Expr(Expr::Number(2)));
    temp.push(Value::Expr(Expr::Number(4)));

    assert!(
        binding_assignment("let x: [i32; 3] = [1,2, 4];").unwrap().1
            == Command::Binding(Binding::Assignment(
                Variable::Named("x".to_string()),
                Type::Array(Box::new(Type::I32), 3),
                Value::Array(temp),
                false
            ))
    );
}

#[test]
fn binding_assignment_tuple_single1() {
    let mut temp = Vec::new();
    temp.push(Command::Binding(Binding::Assignment(
        Variable::Named("x".to_string()),
        Type::I32,
        Value::Variable(Variable::TupleElem(
            "b".to_string(),
            Box::new(Value::Expr(Expr::Number(0))),
        )),
        true,
    )));
    temp.push(Command::Binding(Binding::Assignment(
        Variable::Named("y".to_string()),
        Type::Bool,
        Value::Variable(Variable::TupleElem(
            "b".to_string(),
            Box::new(Value::Expr(Expr::Number(1))),
        )),
        false,
    )));
    temp.push(Command::Binding(Binding::Assignment(
        Variable::Empty,
        Type::Bool,
        Value::Variable(Variable::TupleElem(
            "b".to_string(),
            Box::new(Value::Expr(Expr::Number(2))),
        )),
        false,
    )));

    assert!(
        binding_assignment_tuple_single("let (mut x,y, _): (i32, bool, bool) = b;")
            .unwrap()
            .1
            == Command::Binding(Binding::Tuple(temp))
    );
}

#[test]
fn assignment_tuple_single1() {
    let mut temp = Vec::new();
    temp.push(Assignment::Single(
        Variable::Named("x".to_string()),
        Value::Variable(Variable::TupleElem(
            "b".to_string(),
            Box::new(Value::Expr(Expr::Number(0))),
        )),
    ));
    temp.push(Assignment::Single(
        Variable::Named("y".to_string()),
        Value::Variable(Variable::TupleElem(
            "b".to_string(),
            Box::new(Value::Expr(Expr::Number(1))),
        )),
    ));
    temp.push(Assignment::Single(
        Variable::Empty,
        Value::Variable(Variable::TupleElem(
            "b".to_string(),
            Box::new(Value::Expr(Expr::Number(2))),
        )),
    ));

    assert!(
        assignment_tuple_single("( x,y, _) = b;").unwrap().1
            == Command::Assignment(Assignment::Tuple(temp))
    );
}

#[test]
fn binding_assignment_tuple_multiple1() {
    assert!(
        binding_assignment_tuple_multiple("let (x,): (i32,) = (12,);")
            .unwrap()
            .0
            == ""
    );
    assert!(
        binding_assignment_tuple_multiple("let (x,y): (i32, bool) = (12, true);")
            .unwrap()
            .0
            == ""
    );
    assert!(
        binding_assignment_tuple_multiple("let (x,y, _): (i32, bool, bool) = (12, true, false);")
            .unwrap()
            .0
            == ""
    );
    let mut temp = Vec::new();
    temp.push(Command::Binding(Binding::Assignment(
        Variable::Named("x".to_string()),
        Type::I32,
        Value::Expr(Expr::Number(12)),
        true,
    )));
    temp.push(Command::Binding(Binding::Assignment(
        Variable::Named("y".to_string()),
        Type::Bool,
        Value::Bool(Bool::True),
        false,
    )));
    temp.push(Command::Binding(Binding::Assignment(
        Variable::Empty,
        Type::Bool,
        Value::Bool(Bool::False),
        false,
    )));

    assert_eq!(
        binding_assignment_tuple_multiple(
            "let (mut x,y, _): (i32, bool, bool) = (12, true, false);"
        )
        .unwrap()
        .1,
        Command::Binding(Binding::Tuple(temp))
    );

    let mut temp = Vec::new();
    temp.push(Command::Binding(Binding::Assignment(
        Variable::Named("x".to_string()),
        Type::I32,
        Value::Expr(Expr::Number(12)),
        true,
    )));
    temp.push(Command::Binding(Binding::Assignment(
        Variable::Named("y".to_string()),
        Type::Bool,
        Value::Bool(Bool::True),
        false,
    )));
    temp.push(Command::Binding(Binding::Assignment(
        Variable::Empty,
        Type::Bool,
        Value::Bool(Bool::False),
        false,
    )));

    assert!(
        binding_assignment_tuple_multiple(
            "let (mut x,y, _): (i32, bool, bool) = (12, true, false);"
        )
        .unwrap()
        .1 == Command::Binding(Binding::Tuple(temp))
    );
}

#[test]
fn binding_declaration1() {
    assert!(binding_declaration("let x: i32;").unwrap().0 == "");
    assert!(binding_declaration("let x: i32;").unwrap().0 == "");
    assert!(binding_declaration("let y: bool;").unwrap().0 == "");
    assert!(
        binding_declaration("let z:i32;").unwrap().1
            == Command::Binding(Binding::Declaration(
                Variable::Named("z".to_string()),
                Type::I32,
                false
            ))
    );
    assert!(
        binding_declaration("let mut z:bool;").unwrap().1
            == Command::Binding(Binding::Declaration(
                Variable::Named("z".to_string()),
                Type::Bool,
                true
            ))
    );
    assert!(
        binding_declaration("let x: i32;").unwrap().1
            == Command::Binding(Binding::Declaration(
                Variable::Named("x".to_string()),
                Type::I32,
                false
            ))
    );
    assert!(binding_declaration("let c: (i32, bool);").unwrap().0 == "");
}

#[test]
fn binding_declaration_tuple1() {
    let mut temp = Vec::new();
    temp.push(Command::Binding(Binding::Declaration(
        Variable::Named("a".to_string()),
        Type::I32,
        false,
    )));
    temp.push(Command::Binding(Binding::Declaration(
        Variable::Named("b".to_string()),
        Type::I32,
        true,
    )));
    assert_eq!(
        binding_declaration_tuple("let (a, mut b): (i32, i32);")
            .unwrap()
            .1,
        Command::Binding(Binding::Tuple(temp))
    );

    let mut temp = Vec::new();
    temp.push(Command::Binding(Binding::Declaration(
        Variable::Named("a".to_string()),
        Type::I32,
        false,
    )));
    temp.push(Command::Binding(Binding::Declaration(
        Variable::Named("b".to_string()),
        Type::Bool,
        true,
    )));
    assert_eq!(
        binding_declaration_tuple("let (a, mut b): (i32, bool);")
            .unwrap()
            .1,
        Command::Binding(Binding::Tuple(temp))
    );
}

#[test]
fn _tuple1() {
    let mut first = Vec::new();
    first.push(Value::Variable(Variable::Named("a".to_string())));

    let mut second = Vec::new();
    second.push(Value::Expr(Expr::Number(1)));

    let mut third = Vec::new();
    third.push(Value::Expr(Expr::Number(1)));
    third.push(Value::Expr(Expr::Number(2)));

    let mut fourth = Vec::new();
    fourth.push(Value::Variable(Variable::Named("a".to_string())));
    fourth.push(Value::Variable(Variable::Named("e".to_string())));

    let mut fifth = Vec::new();
    fifth.push(Value::Variable(Variable::Named("a".to_string())));
    fifth.push(Value::Variable(Variable::Named("e".to_string())));
    fifth.push(Value::Expr(Expr::Number(1)));

    let mut sixth = Vec::new();
    sixth.push(Value::Expr(Expr::Number(1)));
    sixth.push(Value::Variable(Variable::Named("a".to_string())));

    let mut seventh = Vec::new();
    seventh.push(Value::Expr(Expr::Number(1)));
    seventh.push(Value::Expr(Expr::Number(2)));
    seventh.push(Value::Variable(Variable::Named("a".to_string())));

    assert!(tuple_values("(a)").is_err());
    assert!(tuple_values("(a,)").unwrap().1 == Value::Tuple(first));
    assert!(tuple_values("(a, false)").unwrap().0 == "");
    assert!(tuple_values("(1,)") == Ok(("", Value::Tuple(second))));
    assert!(tuple_values("(1,2)") == Ok(("", Value::Tuple(third))));
    assert!(tuple_values("(a, e)").unwrap().1 == Value::Tuple(fourth));
    assert!(tuple_values("(a, e, 1)").unwrap().1 == Value::Tuple(fifth));
    assert!(tuple_values("(1, a)").unwrap().1 == Value::Tuple(sixth));
    assert!(tuple_values("(1, 2, a)").unwrap().1 == Value::Tuple(seventh));
}

#[test]
fn tuple_type1() {
    let mut t = Vec::new();
    t.push(Type::I32);
    t.push(Type::Bool);
    t.push(Type::I32);

    assert!(tuple_type("(i32)").is_err());
    assert!(tuple_type("(i32,)").is_ok());
    assert!(tuple_type("(i32, bool, i32)").unwrap().1 == Type::Tuple(t));
}

#[test]
fn tuple_unpack_left1() {
    assert!(tuple_unpack_left("(true)").is_err());
    assert!(tuple_unpack_left("(t, a)").unwrap().0 == "");
    assert!(tuple_unpack_left("(t, a, _)").unwrap().0 == "");
}

#[test]
fn while_parse1() {
    assert!(
        while_parse("//%invariant true\nwhile i {}").unwrap().1
            == Command::Block(Block::While(
                Bool::Value(Box::new(Value::Variable(Variable::Named(
                    String::from("i")
                )))),
                Vec::new(),
                Bool::True, None))
    );

    let mut temp = Vec::new();
    temp.push(Command::Binding(Binding::Assignment(
        Variable::Named("x".to_string()),
        Type::I32,
        Value::Expr(Expr::Number(1)),
        false,
    )));

    assert_eq!(
        while_parse("//%invariant true\n  while true {let x: i32 = 1;}")
            .unwrap()
            .1,
        Command::Block(Block::While(Bool::True, temp, Bool::True, None))
    );
}

#[test]
fn for_parse1() {
    assert!(
        for_parse("//%invariant true\nfor i in 0..2 {}").unwrap().1
            == Command::Block(Block::ForRange(
                Variable::Named("i".to_string()),
                Value::Expr(Expr::Number(0)),
                Value::Expr(Expr::Number(2)),
                Vec::new(),
                Bool::True
            ))
    );

    assert!(
        for_parse("//%invariant true\n for i in 0..b {}").unwrap().1
            == Command::Block(Block::ForRange(
                Variable::Named("i".to_string()),
                Value::Expr(Expr::Number(0)),
                Value::Variable(Variable::Named("b".to_string())),
                Vec::new(),
                Bool::True
            ))
    );

    let mut temp = Vec::new();
    temp.push(Command::Binding(Binding::Assignment(
        Variable::Named("x".to_string()),
        Type::I32,
        Value::Expr(Expr::Number(1)),
        false,
    )));

    assert_eq!(
        for_parse("//%invariant true\nfor i in 0..b {let x: i32 = 1;}")
            .unwrap()
            .1,
        Command::Block(Block::ForRange(
            Variable::Named("i".to_string()),
            Value::Expr(Expr::Number(0)),
            Value::Variable(Variable::Named("b".to_string())),
            temp,
            Bool::True
        ))
    );

    let mut temp = Vec::new();
    temp.push(Command::Binding(Binding::Assignment(
        Variable::Named("x".to_string()),
        Type::I32,
        Value::Expr(Expr::Number(1)),
        false,
    )));

    temp.push(Command::Binding(Binding::Assignment(
        Variable::Named("y".to_string()),
        Type::Bool,
        Value::Bool(Bool::True),
        false,
    )));

    assert!(
        for_parse("//%invariant true\n  for i in 0..b {let x: i32 = 1; let y: bool = true;}")
            .unwrap()
            .1
            == Command::Block(Block::ForRange(
                Variable::Named("i".to_string()),
                Value::Expr(Expr::Number(0)),
                Value::Variable(Variable::Named("b".to_string())),
                temp,
                Bool::True
            ))
    );
}

#[test]
fn reference1() {
    assert_eq!(
        reference("&b").unwrap().1,
        Value::Reference(Box::new(Value::Variable(Variable::Named(
            String::from("b")
        ))))
    );
    assert_eq!(
        reference("&b.1").unwrap().1,
        Value::Reference(Box::new(Value::Variable(Variable::TupleElem(
            String::from("b"),
            Box::new(Value::Expr(Expr::Number(1)))
        ))))
    );
    assert_eq!(
        reference("&b[0]").unwrap().1,
        Value::Reference(Box::new(Value::Variable(Variable::ArrayElem(
            String::from("b"),
            Box::new(Value::Expr(Expr::Number(0)))
        ))))
    );
}

#[test]
fn reference_mut1() {
    assert_eq!(
        reference_mut("&mut b").unwrap().1,
        Value::ReferenceMutable(Box::new(Value::Variable(Variable::Named(
            String::from("b")
        ))))
    );
    assert_eq!(
        reference_mut("&mut b.1").unwrap().1,
        Value::ReferenceMutable(Box::new(Value::Variable(Variable::TupleElem(
            String::from("b"),
            Box::new(Value::Expr(Expr::Number(1)))
        ))))
    );
    assert_eq!(
        reference_mut("&mut b[0]").unwrap().1,
        Value::ReferenceMutable(Box::new(Value::Variable(Variable::ArrayElem(
            String::from("b"),
            Box::new(Value::Expr(Expr::Number(0)))
        ))))
    );
}

#[test]
fn dereference1() {
    assert_eq!(
        dereference("*b").unwrap().1,
        Value::Dereference(Box::new(Value::Variable(Variable::Named(
            String::from("b")
        ))))
    );
    assert_eq!(
        dereference("*b.1").unwrap().1,
        Value::Dereference(Box::new(Value::Variable(Variable::TupleElem(
            String::from("b"),
            Box::new(Value::Expr(Expr::Number(1)))
        ))))
    );
    assert_eq!(
        dereference("*b[0]").unwrap().1,
        Value::Dereference(Box::new(Value::Variable(Variable::ArrayElem(
            String::from("b"),
            Box::new(Value::Expr(Expr::Number(0)))
        ))))
    );
}
