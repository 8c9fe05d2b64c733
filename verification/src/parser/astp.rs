//! The rules of programs, each on a whole text.
use vstd::prelude::*;
use crate::ast::{
    Binding, Bool, Command, Function, Program, SBlock, SCommand, Type, Value, Variable,
    m_cmds, m_vars,
};
use crate::parser::{ParseError, answers};
use crate::parser::lexical::{Source, line_end, skip_line, tag, tag_at};
use crate::parser::statement_parsers::{
    annotation_at, array_type_at, assignment_at, assignment_single_at,
    assignment_tuple_single_at, assignment_tuple_unpack_at, binding_assignment_at,
    binding_assignment_tuple_multiple_at, binding_assignment_tuple_single_at, binding_at,
    binding_declaration_at, binding_declaration_tuple_at, block_at, command_at, for_parse_at,
    function_at, function_input_at, function_inputs_at, if_else_at, m_bindings,
    if_command, m_bodies, m_conds, program_at, prove_control_at, single_if_at, tuple_type_at, tuple_unpack_left_at, type_def_at,
    while_parse_at,
};
use crate::parser::statements;
use crate::parser::term_parsers::{
    array_content_at, dereference_at, function_call_at, r_value_at, reference_at,
    reference_mut_at, tuple_values_at, variable_array_elem_at, variable_at, variable_single_at,
    variable_tuple_elem_at, variable_val_at,
};
use crate::parser::terms;

verus! {

/// A program: one function or more.
pub fn program(input: &str) -> (r: Result<(&str, Program), ParseError>)
    ensures
        answers(r, input@, statements::program(input@, 0)),
{
    let src = Source::new(input);
    match program_at(&src, 0) {
        Some((j, p)) => Ok((src.rest(j), p)),
        None => Err(ParseError),
    }
}

/// A parameter: `mut? name: type`.
pub fn function_input(input: &str) -> (r: Result<(&str, Binding), ParseError>)
    ensures
        answers(r, input@, statements::function_input(input@, 0)),
{
    let src = Source::new(input);
    match function_input_at(&src, 0) {
        Some((j, b)) => Ok((src.rest(j), b)),
        None => Err(ParseError),
    }
}

/// The parameters, separated by commas; possibly none, so this never fails.
pub fn function_inputs(input: &str) -> (r: Result<(&str, Vec<Binding>), ParseError>)
    ensures
        match r {
            Ok((rest, v)) => {
                let (j, w) = statements::function_inputs(input@, 0);
                m_bindings(v@) == w && rest@ == input@.subrange(j, input@.len() as int)
            },
            Err(_) => false,
        },
{
    let src = Source::new(input);
    let (j, v) = function_inputs_at(&src, 0);
    Ok((src.rest(j), v))
}

/// `//%precondition formula` and the end of its line.
pub fn precondition(input: &str) -> (r: Result<(&str, Bool), ParseError>)
    ensures
        answers(r, input@, statements::annotation(input@, 0, "precondition"@)),
{
    let src = Source::new(input);
    match annotation_at(&src, 0, "precondition") {
        Some((j, b)) => Ok((src.rest(j), b)),
        None => Err(ParseError),
    }
}

/// `//%postcondition formula` and the end of its line.
pub fn postcondition(input: &str) -> (r: Result<(&str, Bool), ParseError>)
    ensures
        answers(r, input@, statements::annotation(input@, 0, "postcondition"@)),
{
    let src = Source::new(input);
    match annotation_at(&src, 0, "postcondition") {
        Some((j, b)) => Ok((src.rest(j), b)),
        None => Err(ParseError),
    }
}

/// A function with its optional annotations, parameters, result type,
/// body and returned value.
pub fn function(input: &str) -> (r: Result<(&str, Function), ParseError>)
    ensures
        answers(r, input@, statements::function(input@, 0)),
{
    let src = Source::new(input);
    match function_at(&src, 0) {
        Some((j, f)) => Ok((src.rest(j), f)),
        None => Err(ParseError),
    }
}

/// A type: `i32`, `bool`, an array, a slice, a tuple, or a reference to one.
pub fn type_def(input: &str) -> (r: Result<(&str, Type), ParseError>)
    ensures
        answers(r, input@, statements::type_def(input@, 0)),
{
    let src = Source::new(input);
    match type_def_at(&src, 0) {
        Some((j, t)) => Ok((src.rest(j), t)),
        None => Err(ParseError),
    }
}

/// Commands with comments between them; possibly none, so this never fails.
pub fn block(input: &str) -> (r: Result<(&str, Vec<Command>), ParseError>)
    ensures
        match r {
            Ok((rest, v)) => {
                let (j, w) = statements::block(input@, 0);
                m_cmds(v@) == w && rest@ == input@.subrange(j, input@.len() as int)
            },
            Err(_) => false,
        },
{
    let src = Source::new(input);
    let (j, v) = block_at(&src, 0);
    Ok((src.rest(j), v))
}

/// The characters before the first line end; at least one.
pub fn take_while_not_newline(input: &str) -> (r: Result<(&str, &str), ParseError>)
    ensures
        answers(
            r,
            input@,
            if skip_line(input@, 0) > 0 {
                Some((skip_line(input@, 0), input@.subrange(0, skip_line(input@, 0))))
            } else {
                None
            },
        ),
{
    let src = Source::new(input);
    let j = line_end(&src, 0);
    if j > 0 {
        Ok((src.rest(j), src.part(0, j)))
    } else {
        Err(ParseError)
    }
}

/// A binding, an assertion, an assignment, an `if`, a `while` or a `for`,
/// tried in this order.
pub fn command(input: &str) -> (r: Result<(&str, Command), ParseError>)
    ensures
        answers(r, input@, statements::command(input@, 0)),
{
    let src = Source::new(input);
    match command_at(&src, 0) {
        Some((j, c)) => Ok((src.rest(j), c)),
        None => Err(ParseError),
    }
}

/// An array literal: `[value, value, ...]` with two values or more.
pub fn array_content(input: &str) -> (r: Result<(&str, Value), ParseError>)
    ensures
        answers(r, input@, terms::array_content(input@, 0)),
{
    let src = Source::new(input);
    match array_content_at(&src, 0) {
        Some((j, v)) => Ok((src.rest(j), v)),
        None => Err(ParseError),
    }
}

/// `[type; length]`
pub fn array_type(input: &str) -> (r: Result<(&str, Type), ParseError>)
    ensures
        answers(r, input@, statements::array_type(input@, 0)),
{
    let src = Source::new(input);
    match array_type_at(&src, 0) {
        Some((j, t)) => Ok((src.rest(j), t)),
        None => Err(ParseError),
    }
}

/// An assignment of one of its three forms.
pub fn assignment(input: &str) -> (r: Result<(&str, Command), ParseError>)
    ensures
        answers(r, input@, statements::assignment(input@, 0)),
{
    let src = Source::new(input);
    match assignment_at(&src, 0) {
        Some((j, c)) => Ok((src.rest(j), c)),
        None => Err(ParseError),
    }
}

/// `variable = value;`
pub fn assignment_single(input: &str) -> (r: Result<(&str, Command), ParseError>)
    ensures
        answers(r, input@, statements::assignment_single(input@, 0)),
{
    let src = Source::new(input);
    match assignment_single_at(&src, 0) {
        Some((j, c)) => Ok((src.rest(j), c)),
        None => Err(ParseError),
    }
}

/// `(x, y, ...) = (value, value, ...);`
pub fn assignment_tuple_unpack(input: &str) -> (r: Result<(&str, Command), ParseError>)
    ensures
        answers(r, input@, statements::assignment_tuple_unpack(input@, 0)),
{
    let src = Source::new(input);
    match assignment_tuple_unpack_at(&src, 0) {
        Some((j, c)) => Ok((src.rest(j), c)),
        None => Err(ParseError),
    }
}

/// `(x, y, ...) = tuple;`
pub fn assignment_tuple_single(input: &str) -> (r: Result<(&str, Command), ParseError>)
    ensures
        answers(r, input@, statements::assignment_tuple_single(input@, 0)),
{
    let src = Source::new(input);
    match assignment_tuple_single_at(&src, 0) {
        Some((j, c)) => Ok((src.rest(j), c)),
        None => Err(ParseError),
    }
}

/// `if`, its `else if` branches and its `else` block.
pub fn if_else(input: &str) -> (r: Result<(&str, Command), ParseError>)
    ensures
        answers(r, input@, statements::if_else(input@, 0)),
{
    let src = Source::new(input);
    match if_else_at(&src, 0) {
        Some((j, c)) => Ok((src.rest(j), c)),
        None => Err(ParseError),
    }
}

/// `if formula { block }`, with neither `else if` nor `else`.
pub fn single_if(input: &str) -> (r: Result<(&str, Command), ParseError>)
    ensures
        answers(
            r,
            input@,
            match statements::single_if(input@, 0) {
                Some((j, (c, b))) => Some((j, SCommand::Block(SBlock::If(seq![c], seq![b], seq![])))),
                None => None,
            },
        ),
{
    let src = Source::new(input);
    match single_if_at(&src, 0) {
        Some((j, (c, b))) => {
            let ghost cv = c@;
            let ghost bv = m_cmds(b@);
            let mut conds: Vec<Bool> = Vec::new();
            conds.push(c);
            let mut bodies: Vec<Vec<Command>> = Vec::new();
            bodies.push(b);
            proof {
                assert(m_conds(conds@) =~= seq![cv]);
                assert(m_bodies(bodies@) =~= seq![bv]);
                assert(m_cmds(Seq::<Command>::empty()) =~= Seq::<SCommand>::empty());
            }
            let cmd = if_command(conds, bodies, Vec::new());
            Ok((src.rest(j), cmd))
        },
        None => Err(ParseError),
    }
}

/// `//%assert formula` and the end of its line.
pub fn assert_annotation(input: &str) -> (r: Result<(&str, Command), ParseError>)
    ensures
        answers(r, input@, statements::prove_control(input@, 0)),
{
    let src = Source::new(input);
    match prove_control_at(&src, 0) {
        Some((j, c)) => Ok((src.rest(j), c)),
        None => Err(ParseError),
    }
}

/// `//%invariant formula` and the end of its line.
pub fn loop_invariant(input: &str) -> (r: Result<(&str, Bool), ParseError>)
    ensures
        answers(r, input@, statements::annotation(input@, 0, "invariant"@)),
{
    let src = Source::new(input);
    match annotation_at(&src, 0, "invariant") {
        Some((j, b)) => Ok((src.rest(j), b)),
        None => Err(ParseError),
    }
}

/// `//%`, the start of every annotation.
pub fn prove_start(input: &str) -> (r: Result<(&str, &str), ParseError>)
    ensures
        answers(
            r,
            input@,
            match tag(input@, 0, "//%"@) {
                Some(j) => Some((j, "//%"@)),
                None => None,
            },
        ),
{
    let src = Source::new(input);
    match tag_at(&src, 0, "//%") {
        Some(j) => {
            let w = src.part(0, j);
            assert(w@ =~= "//%"@);
            Ok((src.rest(j), w))
        },
        None => Err(ParseError),
    }
}

/// What may stand on the right of an assignment or a binding.
pub fn r_value(input: &str) -> (r: Result<(&str, Value), ParseError>)
    ensures
        answers(r, input@, terms::r_value(input@, 0)),
{
    let src = Source::new(input);
    match r_value_at(&src, 0) {
        Some((j, v)) => Ok((src.rest(j), v)),
        None => Err(ParseError),
    }
}

/// `&variable`
pub fn reference(input: &str) -> (r: Result<(&str, Value), ParseError>)
    ensures
        answers(r, input@, terms::reference(input@, 0)),
{
    let src = Source::new(input);
    match reference_at(&src, 0) {
        Some((j, v)) => Ok((src.rest(j), v)),
        None => Err(ParseError),
    }
}

/// `&mut variable`
pub fn reference_mut(input: &str) -> (r: Result<(&str, Value), ParseError>)
    ensures
        answers(r, input@, terms::reference_mut(input@, 0)),
{
    let src = Source::new(input);
    match reference_mut_at(&src, 0) {
        Some((j, v)) => Ok((src.rest(j), v)),
        None => Err(ParseError),
    }
}

/// `*variable`
pub fn dereference(input: &str) -> (r: Result<(&str, Value), ParseError>)
    ensures
        answers(r, input@, terms::dereference(input@, 0)),
{
    let src = Source::new(input);
    match dereference_at(&src, 0) {
        Some((j, v)) => Ok((src.rest(j), v)),
        None => Err(ParseError),
    }
}

/// `name(value, value, ...)`
pub fn function_call(input: &str) -> (r: Result<(&str, Value), ParseError>)
    ensures
        answers(r, input@, terms::function_call(input@, 0)),
{
    let src = Source::new(input);
    match function_call_at(&src, 0) {
        Some((j, v)) => Ok((src.rest(j), v)),
        None => Err(ParseError),
    }
}

/// A variable as a value.
pub fn variable_val(input: &str) -> (r: Result<(&str, Value), ParseError>)
    ensures
        answers(r, input@, terms::variable_val(input@, 0)),
{
    let src = Source::new(input);
    match variable_val_at(&src, 0) {
        Some((j, v)) => Ok((src.rest(j), v)),
        None => Err(ParseError),
    }
}

/// An array element, a tuple element or a name, tried in this order.
pub fn variable(input: &str) -> (r: Result<(&str, Variable), ParseError>)
    ensures
        answers(r, input@, terms::variable(input@, 0)),
{
    let src = Source::new(input);
    match variable_at(&src, 0) {
        Some((j, v)) => Ok((src.rest(j), v)),
        None => Err(ParseError),
    }
}

/// A name that is not a keyword.
pub fn variable_single(input: &str) -> (r: Result<(&str, Variable), ParseError>)
    ensures
        answers(r, input@, terms::variable_single(input@, 0)),
{
    let src = Source::new(input);
    match variable_single_at(&src, 0) {
        Some((j, v)) => Ok((src.rest(j), v)),
        None => Err(ParseError),
    }
}

/// `name[value]`
pub fn variable_array_elem(input: &str) -> (r: Result<(&str, Variable), ParseError>)
    ensures
        answers(r, input@, terms::variable_array_elem(input@, 0)),
{
    let src = Source::new(input);
    match variable_array_elem_at(&src, 0) {
        Some((j, v)) => Ok((src.rest(j), v)),
        None => Err(ParseError),
    }
}

/// `name.value`
pub fn variable_tuple_elem(input: &str) -> (r: Result<(&str, Variable), ParseError>)
    ensures
        answers(r, input@, terms::variable_tuple_elem(input@, 0)),
{
    let src = Source::new(input);
    match variable_tuple_elem_at(&src, 0) {
        Some((j, v)) => Ok((src.rest(j), v)),
        None => Err(ParseError),
    }
}

/// A binding of one of its five forms.
pub fn binding(input: &str) -> (r: Result<(&str, Command), ParseError>)
    ensures
        answers(r, input@, statements::binding(input@, 0)),
{
    let src = Source::new(input);
    match binding_at(&src, 0) {
        Some((j, c)) => Ok((src.rest(j), c)),
        None => Err(ParseError),
    }
}

/// `let (x, y, ...): (type, ...) = tuple;`
pub fn binding_assignment_tuple_single(input: &str) -> (r: Result<(&str, Command), ParseError>)
    ensures
        answers(r, input@, statements::binding_assignment_tuple_single(input@, 0)),
{
    let src = Source::new(input);
    match binding_assignment_tuple_single_at(&src, 0) {
        Some((j, c)) => Ok((src.rest(j), c)),
        None => Err(ParseError),
    }
}

/// `let (x, y, ...): (type, ...) = (value, ...);`
pub fn binding_assignment_tuple_multiple(input: &str) -> (r: Result<(&str, Command), ParseError>)
    ensures
        answers(r, input@, statements::binding_assignment_tuple_multiple(input@, 0)),
{
    let src = Source::new(input);
    match binding_assignment_tuple_multiple_at(&src, 0) {
        Some((j, c)) => Ok((src.rest(j), c)),
        None => Err(ParseError),
    }
}

/// `let mut? name: type = value;`, the value of the kind the type asks for.
pub fn binding_assignment(input: &str) -> (r: Result<(&str, Command), ParseError>)
    ensures
        answers(r, input@, statements::binding_assignment(input@, 0)),
{
    let src = Source::new(input);
    match binding_assignment_at(&src, 0) {
        Some((j, c)) => Ok((src.rest(j), c)),
        None => Err(ParseError),
    }
}

/// `let mut? name: type;`
pub fn binding_declaration(input: &str) -> (r: Result<(&str, Command), ParseError>)
    ensures
        answers(r, input@, statements::binding_declaration(input@, 0)),
{
    let src = Source::new(input);
    match binding_declaration_at(&src, 0) {
        Some((j, c)) => Ok((src.rest(j), c)),
        None => Err(ParseError),
    }
}

/// `let (x, mut y, ...): (type, ...);`
pub fn binding_declaration_tuple(input: &str) -> (r: Result<(&str, Command), ParseError>)
    ensures
        answers(r, input@, statements::binding_declaration_tuple(input@, 0)),
{
    let src = Source::new(input);
    match binding_declaration_tuple_at(&src, 0) {
        Some((j, c)) => Ok((src.rest(j), c)),
        None => Err(ParseError),
    }
}

/// A tuple literal: `(value, value?, ...)`.
pub fn tuple_values(input: &str) -> (r: Result<(&str, Value), ParseError>)
    ensures
        answers(r, input@, terms::tuple_values(input@, 0)),
{
    let src = Source::new(input);
    match tuple_values_at(&src, 0) {
        Some((j, v)) => Ok((src.rest(j), v)),
        None => Err(ParseError),
    }
}

/// `(type, type?, ...)`
pub fn tuple_type(input: &str) -> (r: Result<(&str, Type), ParseError>)
    ensures
        answers(r, input@, statements::tuple_type(input@, 0)),
{
    let src = Source::new(input);
    match tuple_type_at(&src, 0) {
        Some((j, t)) => Ok((src.rest(j), t)),
        None => Err(ParseError),
    }
}

/// `(x, y?, ...)` with `_` for a place that is not kept.
pub fn tuple_unpack_left(input: &str) -> (r: Result<(&str, Vec<Variable>), ParseError>)
    ensures
        match r {
            Ok((rest, v)) => match statements::tuple_unpack_left(input@, 0) {
                Some((j, w)) => m_vars(v@) == w && rest@ == input@.subrange(j, input@.len() as int),
                None => false,
            },
            Err(_) => statements::tuple_unpack_left(input@, 0) is None,
        },
{
    let src = Source::new(input);
    match tuple_unpack_left_at(&src, 0) {
        Some((j, v)) => Ok((src.rest(j), v)),
        None => Err(ParseError),
    }
}

/// `//%invariant`, an optional `//%variant`, and `while formula { block }`.
pub fn while_parse(input: &str) -> (r: Result<(&str, Command), ParseError>)
    ensures
        answers(r, input@, statements::while_parse(input@, 0)),
{
    let src = Source::new(input);
    match while_parse_at(&src, 0) {
        Some((j, c)) => Ok((src.rest(j), c)),
        None => Err(ParseError),
    }
}

/// `//%invariant` and `for name in value..value { block }`.
pub fn for_parse(input: &str) -> (r: Result<(&str, Command), ParseError>)
    ensures
        answers(r, input@, statements::for_parse(input@, 0)),
{
    let src = Source::new(input);
    match for_parse_at(&src, 0) {
        Some((j, c)) => Ok((src.rest(j), c)),
        None => Err(ParseError),
    }
}

} // verus!
