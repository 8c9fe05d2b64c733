use vstd::prelude::*;

verus! {

/// A whole program: the list of its functions.
#[derive(Debug, PartialEq, Eq, Hash)]
pub struct Program {
    pub content: Vec<Function>,
}

/// Boolean formulas, used both in conditions of the code and in the annotations.
#[derive(Debug, PartialEq, Eq, Hash)]
pub enum Bool {
    And(Box<Bool>, Box<Bool>),
    Or(Box<Bool>, Box<Bool>),
    Not(Box<Bool>),
    Value(Box<Value>),
    True,
    False,
    Equal(Expr, Expr),
    GreaterEqual(Expr, Expr),
    LowerEqual(Expr, Expr),
    GreaterThan(Expr, Expr),
    LowerThan(Expr, Expr),
    ForAll(Variable, Box<Bool>),
    Exists(Variable, Box<Bool>),
}

/// Annotations that drive the prover.
#[derive(Debug, PartialEq, Eq, Hash)]
pub enum ProveControl {
    Assert(Bool),
    Assume(Bool),
    LoopInvariant(Bool),
}

#[derive(Debug, PartialEq, Eq, Hash)]
pub enum Type {
    Bool,
    I32,
    /// no nested tuples for now
    Tuple(Vec<Type>),
    Reference(Box<Type>),
    ReferenceMutable(Box<Type>),
    /// type of the elements and the length
    Array(Box<Type>, i32),
    /// `&[T]`, as taken by functions
    ArraySlice(Box<Type>),
    Unit,
    /// placeholder for bindings whose type has to be inferred
    Unknown,
}

#[derive(Debug, PartialEq, Eq, Hash)]
pub enum Value {
    Expr(Expr),
    Bool(Bool),
    Variable(Variable),
    Tuple(Vec<Value>),
    Array(Vec<Value>),
    /// function name, arguments
    FunctionCall(String, Vec<Value>),
    Dereference(Box<Value>),
    Reference(Box<Value>),
    ReferenceMutable(Box<Value>),
    Unit,
    /// e.g. the value of a function parameter
    Unknown,
    /// condition, value when it holds, value otherwise
    Ternary(Box<Bool>, Box<Value>, Box<Value>),
}

#[derive(Debug, PartialEq, Eq, Hash)]
pub enum Command {
    Binding(Binding),
    Assignment(Assignment),
    ProveControl(ProveControl),
    Block(Block),
    Noop,
}

#[derive(Debug, PartialEq, Eq, Hash)]
pub enum Assignment {
    Tuple(Vec<Assignment>),
    /// the variable has to be defined already by a binding
    Single(Variable, Value),
}

#[derive(Debug, PartialEq, Eq, Hash)]
pub enum Binding {
    /// name, type, is_mutable
    Declaration(Variable, Type, bool),
    /// name, type, value, is_mutable
    Assignment(Variable, Type, Value, bool),
    Tuple(Vec<Command>),
}

#[derive(Debug, PartialEq, Eq, Hash)]
pub enum Variable {
    Named(String),
    /// `_`
    Empty,
    /// array name, index
    ArrayElem(String, Box<Value>),
    /// tuple name, index
    TupleElem(String, Box<Value>),
}

#[derive(Debug, PartialEq, Eq, Hash)]
pub enum Expr {
    Number(i32),
    Value(Box<Value>),
    Op(Box<Expr>, Opcode, Box<Expr>),
}

#[derive(Clone, Copy, Debug, PartialEq, Eq, Hash)]
pub enum Opcode {
    Mul,
    Div,
    Add,
    Sub,
    /// `%` is the remainder, not the modulo
    Rem,
}

#[derive(Debug, PartialEq, Eq, Hash)]
pub enum Block {
    /// conditions of if / else if, their command lists, the else commands
    If(Vec<Bool>, Vec<Vec<Command>>, Vec<Command>),
    /// iterator, first and last element of the range, commands, invariant
    ForRange(Variable, Value, Value, Vec<Command>, Bool),
    /// condition, commands, invariant, variant
    While(Bool, Vec<Command>, Bool, Option<Expr>),
}

#[derive(Debug, PartialEq, Eq, Hash)]
pub struct Function {
    pub name: String,
    pub content: Vec<Command>,
    pub input: Vec<Binding>,
    /// single type, returning multiple values requires a tuple anyway
    pub output: Type,
    pub precondition: Bool,
    pub postcondition: Bool,
    pub return_value: Value,
}

// ------------------------------------------------------------------
// Mathematical model of the syntax tree: names are sequences of chars.
// ------------------------------------------------------------------
pub enum SBool {
    And(Box<SBool>, Box<SBool>),
    Or(Box<SBool>, Box<SBool>),
    Not(Box<SBool>),
    Value(Box<SValue>),
    True,
    False,
    Equal(SExpr, SExpr),
    GreaterEqual(SExpr, SExpr),
    LowerEqual(SExpr, SExpr),
    GreaterThan(SExpr, SExpr),
    LowerThan(SExpr, SExpr),
    ForAll(SVariable, Box<SBool>),
    Exists(SVariable, Box<SBool>),
}

pub enum SProveControl {
    Assert(SBool),
    Assume(SBool),
    LoopInvariant(SBool),
}

pub enum SType {
    Bool,
    I32,
    Tuple(Seq<SType>),
    Reference(Box<SType>),
    ReferenceMutable(Box<SType>),
    Array(Box<SType>, i32),
    ArraySlice(Box<SType>),
    Unit,
    Unknown,
}

pub enum SValue {
    Expr(SExpr),
    Bool(SBool),
    Variable(SVariable),
    Tuple(Seq<SValue>),
    Array(Seq<SValue>),
    FunctionCall(Seq<char>, Seq<SValue>),
    Dereference(Box<SValue>),
    Reference(Box<SValue>),
    ReferenceMutable(Box<SValue>),
    Unit,
    Unknown,
    Ternary(Box<SBool>, Box<SValue>, Box<SValue>),
}

pub enum SCommand {
    Binding(SBinding),
    Assignment(SAssignment),
    ProveControl(SProveControl),
    Block(SBlock),
    Noop,
}

pub enum SAssignment {
    Tuple(Seq<SAssignment>),
    Single(SVariable, SValue),
}

pub enum SBinding {
    Declaration(SVariable, SType, bool),
    Assignment(SVariable, SType, SValue, bool),
    Tuple(Seq<SCommand>),
}

pub enum SVariable {
    Named(Seq<char>),
    Empty,
    ArrayElem(Seq<char>, Box<SValue>),
    TupleElem(Seq<char>, Box<SValue>),
}

pub enum SExpr {
    Number(i32),
    Value(Box<SValue>),
    Op(Box<SExpr>, Opcode, Box<SExpr>),
}

pub enum SBlock {
    If(Seq<SBool>, Seq<Seq<SCommand>>, Seq<SCommand>),
    ForRange(SVariable, SValue, SValue, Seq<SCommand>, SBool),
    While(SBool, Seq<SCommand>, SBool, Option<SExpr>),
}

pub struct SFunction {
    pub name: Seq<char>,
    pub content: Seq<SCommand>,
    pub input: Seq<SBinding>,
    pub output: SType,
    pub precondition: SBool,
    pub postcondition: SBool,
    pub return_value: SValue,
}

pub struct SProgram {
    pub content: Seq<SFunction>,
}

pub open spec fn m_type(t: Type) -> SType
    decreases t,
{
    match t {
        Type::Bool => SType::Bool,
        Type::I32 => SType::I32,
        Type::Tuple(ts) => SType::Tuple(
            Seq::new(ts@.len(), |i: int| if 0 <= i < ts@.len() { m_type(ts@[i]) } else { SType::Unit }),
        ),
        Type::Reference(b) => SType::Reference(Box::new(m_type(*b))),
        Type::ReferenceMutable(b) => SType::ReferenceMutable(Box::new(m_type(*b))),
        Type::Array(b, n) => SType::Array(Box::new(m_type(*b)), n),
        Type::ArraySlice(b) => SType::ArraySlice(Box::new(m_type(*b))),
        Type::Unit => SType::Unit,
        Type::Unknown => SType::Unknown,
    }
}

pub open spec fn m_bool(b: Bool) -> SBool
    decreases b,
{
    match b {
        Bool::And(x, y) => SBool::And(Box::new(m_bool(*x)), Box::new(m_bool(*y))),
        Bool::Or(x, y) => SBool::Or(Box::new(m_bool(*x)), Box::new(m_bool(*y))),
        Bool::Not(x) => SBool::Not(Box::new(m_bool(*x))),
        Bool::Value(v) => SBool::Value(Box::new(m_value(*v))),
        Bool::True => SBool::True,
        Bool::False => SBool::False,
        Bool::Equal(x, y) => SBool::Equal(m_expr(x), m_expr(y)),
        Bool::GreaterEqual(x, y) => SBool::GreaterEqual(m_expr(x), m_expr(y)),
        Bool::LowerEqual(x, y) => SBool::LowerEqual(m_expr(x), m_expr(y)),
        Bool::GreaterThan(x, y) => SBool::GreaterThan(m_expr(x), m_expr(y)),
        Bool::LowerThan(x, y) => SBool::LowerThan(m_expr(x), m_expr(y)),
        Bool::ForAll(v, x) => SBool::ForAll(m_var(v), Box::new(m_bool(*x))),
        Bool::Exists(v, x) => SBool::Exists(m_var(v), Box::new(m_bool(*x))),
    }
}

pub open spec fn m_expr(e: Expr) -> SExpr
    decreases e,
{
    match e {
        Expr::Number(n) => SExpr::Number(n),
        Expr::Value(v) => SExpr::Value(Box::new(m_value(*v))),
        Expr::Op(a, o, b) => SExpr::Op(Box::new(m_expr(*a)), o, Box::new(m_expr(*b))),
    }
}

pub open spec fn m_var(v: Variable) -> SVariable
    decreases v,
{
    match v {
        Variable::Named(s) => SVariable::Named(s@),
        Variable::Empty => SVariable::Empty,
        Variable::ArrayElem(s, i) => SVariable::ArrayElem(s@, Box::new(m_value(*i))),
        Variable::TupleElem(s, i) => SVariable::TupleElem(s@, Box::new(m_value(*i))),
    }
}

pub open spec fn m_value(v: Value) -> SValue
    decreases v,
{
    match v {
        Value::Expr(e) => SValue::Expr(m_expr(e)),
        Value::Bool(b) => SValue::Bool(m_bool(b)),
        Value::Variable(x) => SValue::Variable(m_var(x)),
        Value::Tuple(vs) => SValue::Tuple(
            Seq::new(vs@.len(), |i: int| if 0 <= i < vs@.len() { m_value(vs@[i]) } else { SValue::Unit }),
        ),
        Value::Array(vs) => SValue::Array(
            Seq::new(vs@.len(), |i: int| if 0 <= i < vs@.len() { m_value(vs@[i]) } else { SValue::Unit }),
        ),
        Value::FunctionCall(n, vs) => SValue::FunctionCall(
            n@,
            Seq::new(vs@.len(), |i: int| if 0 <= i < vs@.len() { m_value(vs@[i]) } else { SValue::Unit }),
        ),
        Value::Dereference(x) => SValue::Dereference(Box::new(m_value(*x))),
        Value::Reference(x) => SValue::Reference(Box::new(m_value(*x))),
        Value::ReferenceMutable(x) => SValue::ReferenceMutable(Box::new(m_value(*x))),
        Value::Unit => SValue::Unit,
        Value::Unknown => SValue::Unknown,
        Value::Ternary(c, a, b) => SValue::Ternary(
            Box::new(m_bool(*c)),
            Box::new(m_value(*a)),
            Box::new(m_value(*b)),
        ),
    }
}

pub open spec fn m_pc(p: ProveControl) -> SProveControl {
    match p {
        ProveControl::Assert(b) => SProveControl::Assert(m_bool(b)),
        ProveControl::Assume(b) => SProveControl::Assume(m_bool(b)),
        ProveControl::LoopInvariant(b) => SProveControl::LoopInvariant(m_bool(b)),
    }
}

pub open spec fn m_cmd(c: Command) -> SCommand
    decreases c,
{
    match c {
        Command::Binding(b) => SCommand::Binding(m_binding(b)),
        Command::Assignment(a) => SCommand::Assignment(m_assign(a)),
        Command::ProveControl(p) => SCommand::ProveControl(m_pc(p)),
        Command::Block(b) => SCommand::Block(m_block(b)),
        Command::Noop => SCommand::Noop,
    }
}

pub open spec fn m_assign(a: Assignment) -> SAssignment
    decreases a,
{
    match a {
        Assignment::Tuple(v) => SAssignment::Tuple(
            Seq::new(v@.len(), |i: int| if 0 <= i < v@.len() { m_assign(v@[i]) } else { SAssignment::Tuple(seq![]) }),
        ),
        Assignment::Single(x, y) => SAssignment::Single(m_var(x), m_value(y)),
    }
}

pub open spec fn m_binding(b: Binding) -> SBinding
    decreases b,
{
    match b {
        Binding::Declaration(x, t, m) => SBinding::Declaration(m_var(x), m_type(t), m),
        Binding::Assignment(x, t, v, m) => SBinding::Assignment(m_var(x), m_type(t), m_value(v), m),
        Binding::Tuple(cs) => SBinding::Tuple(
            Seq::new(cs@.len(), |i: int| if 0 <= i < cs@.len() { m_cmd(cs@[i]) } else { SCommand::Noop }),
        ),
    }
}

pub open spec fn m_block(b: Block) -> SBlock
    decreases b,
{
    match b {
        Block::If(conds, bodies, el) => SBlock::If(
            Seq::new(conds@.len(), |i: int| m_bool(conds@[i])),
            Seq::new(
                bodies@.len(),
                |i: int|
                    if 0 <= i < bodies@.len() {
                        Seq::new(
                            bodies@[i]@.len(),
                            |j: int|
                                if 0 <= j < bodies@[i]@.len() {
                                    m_cmd(bodies@[i]@[j])
                                } else {
                                    SCommand::Noop
                                },
                        )
                    } else {
                        Seq::empty()
                    },
            ),
            Seq::new(el@.len(), |i: int| if 0 <= i < el@.len() { m_cmd(el@[i]) } else { SCommand::Noop }),
        ),
        Block::ForRange(it, a, b, cs, inv) => SBlock::ForRange(
            m_var(it),
            m_value(a),
            m_value(b),
            Seq::new(cs@.len(), |i: int| if 0 <= i < cs@.len() { m_cmd(cs@[i]) } else { SCommand::Noop }),
            m_bool(inv),
        ),
        Block::While(c, cs, inv, var) => SBlock::While(
            m_bool(c),
            Seq::new(cs@.len(), |i: int| if 0 <= i < cs@.len() { m_cmd(cs@[i]) } else { SCommand::Noop }),
            m_bool(inv),
            match var {
                Some(e) => Some(m_expr(e)),
                None => None,
            },
        ),
    }
}

pub open spec fn m_func(f: Function) -> SFunction {
    SFunction {
        name: f.name@,
        content: m_cmds(f.content@),
        input: f.input@.map_values(|b: Binding| m_binding(b)),
        output: m_type(f.output),
        precondition: m_bool(f.precondition),
        postcondition: m_bool(f.postcondition),
        return_value: m_value(f.return_value),
    }
}

pub open spec fn m_program(p: Program) -> SProgram {
    SProgram { content: p.content@.map_values(|f: Function| m_func(f)) }
}

pub open spec fn m_cmds(cs: Seq<Command>) -> Seq<SCommand> {
    cs.map_values(|c: Command| m_cmd(c))
}

pub open spec fn m_values(vs: Seq<Value>) -> Seq<SValue> {
    vs.map_values(|v: Value| m_value(v))
}

pub open spec fn m_vars(vs: Seq<Variable>) -> Seq<SVariable> {
    vs.map_values(|v: Variable| m_var(v))
}

pub open spec fn m_bools(bs: Seq<Bool>) -> Seq<SBool> {
    bs.map_values(|b: Bool| m_bool(b))
}

impl View for Program {
    type V = SProgram;

    open spec fn view(&self) -> SProgram {
        m_program(*self)
    }
}

impl View for Function {
    type V = SFunction;

    open spec fn view(&self) -> SFunction {
        m_func(*self)
    }
}

impl View for Bool {
    type V = SBool;

    open spec fn view(&self) -> SBool {
        m_bool(*self)
    }
}

impl View for Expr {
    type V = SExpr;

    open spec fn view(&self) -> SExpr {
        m_expr(*self)
    }
}

impl View for Value {
    type V = SValue;

    open spec fn view(&self) -> SValue {
        m_value(*self)
    }
}

impl View for Variable {
    type V = SVariable;

    open spec fn view(&self) -> SVariable {
        m_var(*self)
    }
}

impl View for Type {
    type V = SType;

    open spec fn view(&self) -> SType {
        m_type(*self)
    }
}

impl View for Command {
    type V = SCommand;

    open spec fn view(&self) -> SCommand {
        m_cmd(*self)
    }
}

impl View for Assignment {
    type V = SAssignment;

    open spec fn view(&self) -> SAssignment {
        m_assign(*self)
    }
}

impl View for Binding {
    type V = SBinding;

    open spec fn view(&self) -> SBinding {
        m_binding(*self)
    }
}

impl View for Block {
    type V = SBlock;

    open spec fn view(&self) -> SBlock {
        m_block(*self)
    }
}

impl View for Opcode {
    type V = Opcode;

    open spec fn view(&self) -> Opcode {
        *self
    }
}

impl View for ProveControl {
    type V = SProveControl;

    open spec fn view(&self) -> SProveControl {
        m_pc(*self)
    }
}

/// The formula that an annotation carries.
pub trait ProveControlFuncs: Sized {
    /// What `get_bool` gives, on the models.
    spec fn formula(self) -> SBool;

    /// The formula of the annotation, whatever its kind.
    fn get_bool(self) -> (r: Bool)
        ensures
            r@ == self.formula(),
    ;
}

impl ProveControlFuncs for ProveControl {
    open spec fn formula(self) -> SBool {
        match self@ {
            SProveControl::Assert(b) => b,
            SProveControl::Assume(b) => b,
            SProveControl::LoopInvariant(b) => b,
        }
    }

    fn get_bool(self) -> (r: Bool) {
        match self {
            ProveControl::Assert(a) => a,
            ProveControl::Assume(a) => a,
            ProveControl::LoopInvariant(a) => a,
        }
    }
}

} // verus!
