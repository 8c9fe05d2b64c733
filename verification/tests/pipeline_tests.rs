use rustp::ast::{Bool, Expr, Program, Value, Variable};
use rustp::parser::astp::{function, take_while_not_newline, variable};
use rustp::parser::boolean::expr as formula;
use rustp::parser::math::{expr, number};
use rustp::parser::{program, ParseError};
use rustp::prover::prove;
use rustp::simplifier::try_simplify;
use rustp::validator::{validate, validation_defined};

/// Reads, infers types, validates and proves, as the command line does:
/// `None` where the text is not read whole.
fn check_text(text: &str) -> Option<(bool, bool)> {
    let (rest, tree) = program(text).ok()?;
    if !rest.is_empty() {
        return None;
    }
    let simplified: Program = try_simplify(&tree)?;
    let valid = validation_defined(&simplified) && validate(simplified.clone());
    let proved = prove(simplified, vec![]);
    Some((valid, proved))
}

#[test]
fn pipeline_tuple_result_not_supported() {
    let text = "//%precondition true\n//%postcondition x == y'old && y == x'old\nfn swap(mut x: i32, mut y: i32) -> (i32, i32) {\n    let t: i32 = x;\n    x = y;\n    y = t;\n    (x, y)\n}\n\nfn main() {}\n";
    assert_eq!(check_text(text), Some((true, false)));
}

#[test]
fn pipeline_returned_value_proved() {
    let text = "//%precondition x == 2\n//%postcondition x == 4 && x == x'old + 2 && return_value == 12\nfn temp(mut x: i32) -> i32 {\n    x = x + 2;\n    if 12 > 3 {\n        x = x + 0;\n    } else {\n        x = x + 13;\n    }\n    (x + 8)\n}\n";
    assert_eq!(check_text(text), Some((true, true)));
}

#[test]
fn pipeline_nested_conditions_proved() {
    let text = "//%precondition x == 2\n//%postcondition x == 4 && x == x'old + 2 && return_value == 12\nfn temp_if(mut x: i32) -> i32 {\n    let y: bool = false;\n    if !y {\n        x = x + 1;\n        if 12 < 3 {\n            x = x + 3;\n        } else {\n            if 3 < 2 {\n                x = x + 3;\n            } else {\n                x = x + 1;\n            }\n        }\n    } else {\n        x = x + 12;\n    }\n    (x + 8)\n}\n";
    assert_eq!(check_text(text), Some((true, true)));
}

#[test]
fn pipeline_loop_invariant_proved() {
    let text = "//%precondition x>=0 && y >=0\n//%postcondition quo * y + rem == x\nfn remainder_simple(x: i32, y: i32) {\n    let mut quo: i32 = 0;\n    let mut rem: i32 = x;\n\n    //%invariant quo * y + rem == x\n    while rem >= y {\n        rem = rem - y;\n        quo = quo + 1;\n    }\n}\n";
    assert_eq!(check_text(text), Some((true, true)));
}

#[test]
fn pipeline_loop_variant_checked() {
    let good = "fn test4(mut a: i32) {\n    let mut i: i32 = 10;\n    //%invariant i >= 0\n    //%variant i\n    while i > 0 {\n        i = i - 1;\n    }\n}\n";
    let bad = "fn test4(mut a: i32) {\n    let mut i: i32 = 10;\n    //%invariant true\n    //%variant i - 20\n    while i > 0 {\n        i = i - 1;\n    }\n}\n";
    assert_eq!(check_text(good), Some((true, true)));
    assert_eq!(check_text(bad), Some((true, false)));
}

#[test]
fn pipeline_array_element_assertion() {
    let text = "fn test() {\n    let mut t: [i32; 3] = [0, 0, 0];\n    t[1] = 2;\n    let b: i32 = 1;\n    //%assert t[1] == 2\n}\n";
    assert_eq!(check_text(text), Some((true, true)));
}

#[test]
fn pipeline_shadowing_refused() {
    let text = "fn f() {\n    let a: i32 = 1;\n    let a: i32 = 2;\n}\n";
    assert_eq!(check_text(text).map(|r| r.0), Some(false));
}

#[test]
fn pipeline_wrong_postcondition_not_proved() {
    let text = "//%precondition x == 2\n//%postcondition x == 5\nfn f(mut x: i32) {\n    x = x + 2;\n}\n";
    assert_eq!(check_text(text), Some((true, false)));
}

#[test]
fn pipeline_assertion_checked() {
    let good = "fn f() {\n    let a: i32 = 3;\n    //%assert a == 3\n}\n";
    let bad = "fn f() {\n    let a: i32 = 3;\n    //%assert a == 4\n}\n";
    assert_eq!(check_text(good), Some((true, true)));
    assert_eq!(check_text(bad), Some((true, false)));
}

#[test]
fn pipeline_rest_left_unread() {
    let (rest, tree) = program("fn a () {}\nthis is not code").unwrap();
    assert_eq!(tree.content.len(), 1);
    assert_eq!(rest, "this is not code");
}

#[test]
fn parse_error_on_no_function() {
    assert_eq!(program("let x: i32 = 1;"), Err(ParseError));
    assert_eq!(program(""), Err(ParseError));
}

#[test]
fn number_too_large_is_refused() {
    assert_eq!(number("2147483647"), Ok(("", 2147483647)));
    assert_eq!(number("2147483648"), Err(ParseError));
    assert!(expr("99999999999").is_err());
}

#[test]
fn negative_number_read() {
    assert_eq!(expr("-7").unwrap().1, Box::new(Expr::Number(-7)));
}

#[test]
fn take_while_not_newline_needs_one_char() {
    assert_eq!(take_while_not_newline("\nabc"), Err(ParseError));
    assert_eq!(take_while_not_newline(""), Err(ParseError));
    assert_eq!(take_while_not_newline("ab\ncd"), Ok(("\ncd", "ab")));
}

#[test]
fn names_with_letters_of_any_alphabet() {
    assert_eq!(variable("źdźbło rest"), Ok((" rest", Variable::Named(String::from("źdźbło")))));
    assert!(variable("9a").is_err());
    assert!(variable("let").is_err());
}

#[test]
fn function_names_may_hold_digits() {
    let (rest, f) = function("fn f1 () {}").unwrap();
    assert_eq!(rest, "");
    assert_eq!(f.name, "f1");
}

#[test]
fn old_value_names_read() {
    assert_eq!(
        formula("x == x'old").unwrap().1,
        Box::new(Bool::Equal(
            Expr::Value(Box::new(Value::Variable(Variable::Named(String::from("x"))))),
            Expr::Value(Box::new(Value::Variable(Variable::Named(String::from("x'old")))))
        ))
    );
}

#[test]
fn pipeline_loop_exit_needs_only_invariant_and_negated_condition() {
    let text = "//%precondition n >= 0\n//%postcondition true\nfn down(n: i32) {\n    let mut i: i32 = n;\n    //%invariant i >= 0\n    while i > 0 {\n        i = i - 1;\n    }\n    //%assert i == 0\n}\n";
    assert_eq!(check_text(text), Some((true, true)));
}

#[test]
fn pipeline_variant_must_decrease() {
    let text = "fn f() {\n    let mut i: i32 = 10;\n    //%invariant i >= 0\n    //%variant 5\n    while i > 0 {\n        i = i - 1;\n    }\n}\n";
    assert_eq!(check_text(text), Some((true, false)));
}

#[test]
fn pipeline_parameter_rebinding_refused() {
    let text = "fn f(a: i32) {\n    let a: i32 = 1;\n}\n";
    assert_eq!(check_text(text).map(|r| r.0), Some(false));
}
