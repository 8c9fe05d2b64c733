//! The calls into the Z3 solver that the prover makes, one outside call
//! each.  Z3 terms are opaque to Verus, so each is kept with a model: the
//! term that was asked of Z3 (`ZInt`, `ZBool`), and the context it was made
//! in.  Only the items here build terms; their contracts say which term
//! each call makes.  The terms are given their meaning in the integer
//! theory (`int_value`, `bool_value`), and the solver's answer is stated
//! over it: `Unsat` only where no valuation satisfies what was asserted,
//! `Sat` only where one does.
use vstd::prelude::*;
use z3::ast::Bool as Formula;

verus! {

// ------------------------------------------------------------------
// The solver's types
// ------------------------------------------------------------------
#[verifier::external_type_specification]
#[verifier::external_body]
pub struct ExConfig(z3::Config);

#[verifier::external_type_specification]
#[verifier::external_body]
pub struct ExContext(z3::Context);

#[verifier::external_type_specification]
#[verifier::external_body]
pub struct ExSolver<'ctx>(z3::Solver<'ctx>);

#[verifier::external_type_specification]
#[verifier::external_body]
pub struct ExZ3Bool<'ctx>(Formula<'ctx>);

#[verifier::external_type_specification]
#[verifier::external_body]
pub struct ExZ3Int<'ctx>(z3::ast::Int<'ctx>);

#[verifier::external_type_specification]
#[verifier::external_body]
pub struct ExZ3Array<'ctx>(z3::ast::Array<'ctx>);

#[verifier::external_type_specification]
#[verifier::external_body]
pub struct ExZ3Sort<'ctx>(z3::Sort<'ctx>);

/// The answer of the solver on the negation of an obligation.
pub enum Verdict {
    /// a counterexample exists: the obligation does not hold
    Sat,
    /// no counterexample: the obligation holds
    Unsat,
    /// the solver gave up
    Unknown,
}

/// An obligation is shown only when the solver finds that its negation has
/// no model.
pub fn verdict_proves(v: Verdict) -> (r: bool)
    ensures
        r == (v is Unsat),
{
    match v {
        Verdict::Unsat => true,
        Verdict::Sat => false,
        Verdict::Unknown => false,
    }
}


// ------------------------------------------------------------------
// Models of the terms
// ------------------------------------------------------------------
/// An integer term, as it was asked of Z3.
pub enum ZInt {
    Lit(int),
    Const(Seq<char>),
    /// an element of an integer array constant
    Select(Seq<char>, Box<ZInt>),
    Add(Box<ZInt>, Box<ZInt>),
    Sub(Box<ZInt>, Box<ZInt>),
    Mul(Box<ZInt>, Box<ZInt>),
    Div(Box<ZInt>, Box<ZInt>),
    Rem(Box<ZInt>, Box<ZInt>),
    Ite(Box<ZBool>, Box<ZInt>, Box<ZInt>),
}

/// A boolean term, as it was asked of Z3.
pub enum ZBool {
    Lit(bool),
    Const(Seq<char>),
    And(Box<ZBool>, Box<ZBool>),
    Or(Box<ZBool>, Box<ZBool>),
    Not(Box<ZBool>),
    Implies(Box<ZBool>, Box<ZBool>),
    Ge(Box<ZInt>, Box<ZInt>),
    Le(Box<ZInt>, Box<ZInt>),
    Gt(Box<ZInt>, Box<ZInt>),
    Lt(Box<ZInt>, Box<ZInt>),
    Ite(Box<ZBool>, Box<ZBool>, Box<ZBool>),
    Forall(Seq<char>, Box<ZBool>),
    Exists(Seq<char>, Box<ZBool>),
}

/// A name Z3 can take: it holds no NUL character.
pub open spec fn name_ok(n: Seq<char>) -> bool {
    forall|i: int| 0 <= i < n.len() ==> n[i] != '\0'
}

/// Values for the constants of the solver's terms, by name and sort, and
/// the values that the integer theory leaves open: what division and
/// remainder by zero give, each a function of the dividend.
pub struct Valuation {
    pub ints: spec_fn(Seq<char>) -> int,
    pub bools: spec_fn(Seq<char>) -> bool,
    pub arrays: spec_fn(Seq<char>, int) -> int,
    pub div_by_zero: spec_fn(int) -> int,
    pub rem_by_zero: spec_fn(int) -> int,
}

/// Holds of every integer: the trigger of the quantifiers below.
pub open spec fn an_int(x: int) -> bool {
    true
}

/// The valuation with the integer constant `n` set to `x`.
pub open spec fn with_int(v: Valuation, n: Seq<char>, x: int) -> Valuation {
    Valuation {
        ints: |m: Seq<char>| if m == n { x } else { (v.ints)(m) },
        bools: v.bools,
        arrays: v.arrays,
        div_by_zero: v.div_by_zero,
        rem_by_zero: v.rem_by_zero,
    }
}

/// Integer division of the theory: `a == b * q + m` with `0 <= m < |b|`.
pub open spec fn div_value(v: Valuation, a: int, b: int) -> int {
    if b == 0 {
        (v.div_by_zero)(a)
    } else if b > 0 {
        a / b
    } else {
        -(a / (-b))
    }
}

/// Z3's `rem`: the modulus `m` above, negated where `b` is negative.
pub open spec fn rem_value(v: Valuation, a: int, b: int) -> int {
    if b == 0 {
        (v.rem_by_zero)(a)
    } else if b > 0 {
        a % b
    } else {
        -(a % (-b))
    }
}

/// The value of an integer term under a valuation.
pub open spec fn int_value(v: Valuation, t: ZInt) -> int
    decreases t,
{
    match t {
        ZInt::Lit(n) => n,
        ZInt::Const(n) => (v.ints)(n),
        ZInt::Select(n, i) => (v.arrays)(n, int_value(v, *i)),
        ZInt::Add(a, b) => int_value(v, *a) + int_value(v, *b),
        ZInt::Sub(a, b) => int_value(v, *a) - int_value(v, *b),
        ZInt::Mul(a, b) => int_value(v, *a) * int_value(v, *b),
        ZInt::Div(a, b) => div_value(v, int_value(v, *a), int_value(v, *b)),
        ZInt::Rem(a, b) => rem_value(v, int_value(v, *a), int_value(v, *b)),
        ZInt::Ite(c, a, b) => if bool_value(v, *c) {
            int_value(v, *a)
        } else {
            int_value(v, *b)
        },
    }
}

/// The truth of a boolean term under a valuation; a quantifier ranges
/// over the integers.
pub open spec fn bool_value(v: Valuation, t: ZBool) -> bool
    decreases t,
{
    match t {
        ZBool::Lit(b) => b,
        ZBool::Const(n) => (v.bools)(n),
        ZBool::And(a, b) => bool_value(v, *a) && bool_value(v, *b),
        ZBool::Or(a, b) => bool_value(v, *a) || bool_value(v, *b),
        ZBool::Not(a) => !bool_value(v, *a),
        ZBool::Implies(a, b) => bool_value(v, *a) ==> bool_value(v, *b),
        ZBool::Ge(a, b) => int_value(v, *a) >= int_value(v, *b),
        ZBool::Le(a, b) => int_value(v, *a) <= int_value(v, *b),
        ZBool::Gt(a, b) => int_value(v, *a) > int_value(v, *b),
        ZBool::Lt(a, b) => int_value(v, *a) < int_value(v, *b),
        ZBool::Ite(c, a, b) => if bool_value(v, *c) {
            bool_value(v, *a)
        } else {
            bool_value(v, *b)
        },
        ZBool::Forall(n, b) => forall|x: int| #[trigger] an_int(x) ==> bool_value(with_int(v, n, x), *b),
        ZBool::Exists(n, b) => exists|x: int| #[trigger] an_int(x) && bool_value(with_int(v, n, x), *b),
    }
}

/// Every formula of `s` is true under `v`.
pub open spec fn satisfied_by(v: Valuation, s: Seq<ZBool>) -> bool {
    forall|i: int| 0 <= i < s.len() ==> #[trigger] bool_value(v, s[i])
}

/// Some valuation makes every formula of `s` true.
pub open spec fn satisfiable(s: Seq<ZBool>) -> bool {
    exists|v: Valuation| #[trigger] satisfied_by(v, s)
}

/// An integer term of Z3, with the term asked for and its context.
pub struct IntTerm<'c> {
    term: z3::ast::Int<'c>,
    model: Ghost<ZInt>,
    ctx: Ghost<z3::Context>,
}

/// A boolean term of Z3, with the term asked for and its context.
pub struct BoolTerm<'c> {
    term: Formula<'c>,
    model: Ghost<ZBool>,
    ctx: Ghost<z3::Context>,
}

/// An array constant of Z3 from integers to integers, with its name.
pub struct IntArray<'c> {
    term: z3::ast::Array<'c>,
    name: Ghost<Seq<char>>,
    ctx: Ghost<z3::Context>,
}

/// The sort of integers of a context.
pub struct IntSort<'c> {
    sort: z3::Sort<'c>,
    ctx: Ghost<z3::Context>,
}

/// A Z3 solver, with the formulas asserted in it.
pub struct Prover<'c> {
    solver: z3::Solver<'c>,
    asserted: Ghost<Seq<ZBool>>,
    ctx: Ghost<z3::Context>,
}

impl<'c> IntTerm<'c> {
    pub closed spec fn model(&self) -> ZInt {
        self.model@
    }

    pub closed spec fn ctx(&self) -> z3::Context {
        self.ctx@
    }
}

impl<'c> BoolTerm<'c> {
    pub closed spec fn model(&self) -> ZBool {
        self.model@
    }

    pub closed spec fn ctx(&self) -> z3::Context {
        self.ctx@
    }
}

impl<'c> IntArray<'c> {
    pub closed spec fn name(&self) -> Seq<char> {
        self.name@
    }

    pub closed spec fn ctx(&self) -> z3::Context {
        self.ctx@
    }
}

impl<'c> IntSort<'c> {
    pub closed spec fn ctx(&self) -> z3::Context {
        self.ctx@
    }
}

impl<'c> Prover<'c> {
    pub closed spec fn asserted(&self) -> Seq<ZBool> {
        self.asserted@
    }

    pub closed spec fn ctx(&self) -> z3::Context {
        self.ctx@
    }
}

// ------------------------------------------------------------------
// Calls into the solver
// ------------------------------------------------------------------
/// `z3::Config::new`: the default configuration.
#[verifier::external_body]
pub(crate) fn new_config() -> (r: z3::Config) {
    z3::Config::new()
}

/// `z3::Context::new`: a fresh context.
#[verifier::external_body]
pub(crate) fn new_context(cfg: &z3::Config) -> (r: z3::Context) {
    z3::Context::new(cfg)
}

/// `z3::Solver::new`: a solver of the context with no assertion yet.
#[verifier::external_body]
pub(crate) fn new_solver<'c>(ctx: &'c z3::Context) -> (r: Prover<'c>)
    ensures
        r.asserted() == Seq::<ZBool>::empty(),
        r.ctx() == *ctx,
{
    Prover { solver: z3::Solver::new(ctx), asserted: Ghost(Seq::empty()), ctx: Ghost(*ctx) }
}

/// `Formula::new_const`: the boolean constant with that name (a NUL in the
/// name would make the call panic).
#[verifier::external_body]
pub(crate) fn bool_const<'c>(ctx: &'c z3::Context, name: &String) -> (r: BoolTerm<'c>)
    requires
        name_ok(name@),
    ensures
        r.model() == ZBool::Const(name@),
        r.ctx() == *ctx,
{
    BoolTerm { term: Formula::new_const(ctx, name.as_str()), model: Ghost(ZBool::Const(name@)), ctx: Ghost(*ctx) }
}

/// `z3::ast::Int::new_const`: the integer constant with that name (a NUL in
/// the name would make the call panic).
#[verifier::external_body]
pub(crate) fn int_const<'c>(ctx: &'c z3::Context, name: &String) -> (r: IntTerm<'c>)
    requires
        name_ok(name@),
    ensures
        r.model() == ZInt::Const(name@),
        r.ctx() == *ctx,
{
    IntTerm { term: z3::ast::Int::new_const(ctx, name.as_str()), model: Ghost(ZInt::Const(name@)), ctx: Ghost(*ctx) }
}

/// `z3::Sort::int`: the sort of integers.
#[verifier::external_body]
pub(crate) fn int_sort<'c>(ctx: &'c z3::Context) -> (r: IntSort<'c>)
    ensures
        r.ctx() == *ctx,
{
    IntSort { sort: z3::Sort::int(ctx), ctx: Ghost(*ctx) }
}

/// `z3::ast::Array::new_const`: the array constant with that name, from
/// integers to integers.
#[verifier::external_body]
pub(crate) fn array_const<'c>(ctx: &'c z3::Context, name: &String, domain: &IntSort<'c>, range: &IntSort<'c>) -> (r: IntArray<'c>)
    requires
        name_ok(name@),
        domain.ctx() == *ctx,
        range.ctx() == *ctx,
    ensures
        r.name() == name@,
        r.ctx() == *ctx,
{
    IntArray {
        term: z3::ast::Array::new_const(ctx, name.as_str(), &domain.sort, &range.sort),
        name: Ghost(name@),
        ctx: Ghost(*ctx),
    }
}

/// `z3::ast::Array::select`, read as an integer.  An `IntArray` is made
/// only by `array_const` over two `IntSort`s, which only `int_sort` makes,
/// so its domain and range are the integers: the index, of the same
/// context, has the domain's sort, Z3 builds the term (the source asserts
/// it is not null), and the term has the integer sort.
#[verifier::external_body]
pub(crate) fn select_int<'c>(arr: &IntArray<'c>, index: &IntTerm<'c>) -> (r: Option<IntTerm<'c>>)
    requires
        arr.ctx() == index.ctx(),
    ensures
        r is Some,
        r->Some_0.model() == ZInt::Select(arr.name(), Box::new(index.model())),
        r->Some_0.ctx() == arr.ctx(),
{
    match arr.term.select(&index.term).as_int() {
        Some(t) => Some(IntTerm { term: t, model: Ghost(ZInt::Select(arr.name@, Box::new(index.model@))), ctx: Ghost(arr.ctx@) }),
        None => None,
    }
}

/// `z3::ast::Int::from_i64`: the integer literal.
#[verifier::external_body]
pub(crate) fn int_lit<'c>(ctx: &'c z3::Context, n: i64) -> (r: IntTerm<'c>)
    ensures
        r.model() == ZInt::Lit(n as int),
        r.ctx() == *ctx,
{
    IntTerm { term: z3::ast::Int::from_i64(ctx, n), model: Ghost(ZInt::Lit(n as int)), ctx: Ghost(*ctx) }
}

/// `z3::ast::Int::add` of two terms of one context.
#[verifier::external_body]
pub(crate) fn int_add<'c>(ctx: &'c z3::Context, a: &IntTerm<'c>, b: &IntTerm<'c>) -> (r: IntTerm<'c>)
    requires
        a.ctx() == *ctx,
        b.ctx() == *ctx,
    ensures
        r.model() == ZInt::Add(Box::new(a.model()), Box::new(b.model())),
        r.ctx() == *ctx,
{
    IntTerm { term: z3::ast::Int::add(ctx, &[&a.term, &b.term]), model: Ghost(ZInt::Add(Box::new(a.model@), Box::new(b.model@))), ctx: Ghost(*ctx) }
}

/// `z3::ast::Int::sub` of two terms of one context.
#[verifier::external_body]
pub(crate) fn int_sub<'c>(ctx: &'c z3::Context, a: &IntTerm<'c>, b: &IntTerm<'c>) -> (r: IntTerm<'c>)
    requires
        a.ctx() == *ctx,
        b.ctx() == *ctx,
    ensures
        r.model() == ZInt::Sub(Box::new(a.model()), Box::new(b.model())),
        r.ctx() == *ctx,
{
    IntTerm { term: z3::ast::Int::sub(ctx, &[&a.term, &b.term]), model: Ghost(ZInt::Sub(Box::new(a.model@), Box::new(b.model@))), ctx: Ghost(*ctx) }
}

/// `z3::ast::Int::mul` of two terms of one context.
#[verifier::external_body]
pub(crate) fn int_mul<'c>(ctx: &'c z3::Context, a: &IntTerm<'c>, b: &IntTerm<'c>) -> (r: IntTerm<'c>)
    requires
        a.ctx() == *ctx,
        b.ctx() == *ctx,
    ensures
        r.model() == ZInt::Mul(Box::new(a.model()), Box::new(b.model())),
        r.ctx() == *ctx,
{
    IntTerm { term: z3::ast::Int::mul(ctx, &[&a.term, &b.term]), model: Ghost(ZInt::Mul(Box::new(a.model@), Box::new(b.model@))), ctx: Ghost(*ctx) }
}

/// `z3::ast::Int::div` of two terms of one context.
#[verifier::external_body]
pub(crate) fn int_div<'c>(a: &IntTerm<'c>, b: &IntTerm<'c>) -> (r: IntTerm<'c>)
    requires
        a.ctx() == b.ctx(),
    ensures
        r.model() == ZInt::Div(Box::new(a.model()), Box::new(b.model())),
        r.ctx() == a.ctx(),
{
    IntTerm { term: a.term.div(&b.term), model: Ghost(ZInt::Div(Box::new(a.model@), Box::new(b.model@))), ctx: Ghost(a.ctx@) }
}

/// `z3::ast::Int::rem` of two terms of one context.
#[verifier::external_body]
pub(crate) fn int_rem<'c>(a: &IntTerm<'c>, b: &IntTerm<'c>) -> (r: IntTerm<'c>)
    requires
        a.ctx() == b.ctx(),
    ensures
        r.model() == ZInt::Rem(Box::new(a.model()), Box::new(b.model())),
        r.ctx() == a.ctx(),
{
    IntTerm { term: a.term.rem(&b.term), model: Ghost(ZInt::Rem(Box::new(a.model@), Box::new(b.model@))), ctx: Ghost(a.ctx@) }
}

/// `z3::ast::Int::ge` of two terms of one context.
#[verifier::external_body]
pub(crate) fn int_ge<'c>(a: &IntTerm<'c>, b: &IntTerm<'c>) -> (r: BoolTerm<'c>)
    requires
        a.ctx() == b.ctx(),
    ensures
        r.model() == ZBool::Ge(Box::new(a.model()), Box::new(b.model())),
        r.ctx() == a.ctx(),
{
    BoolTerm { term: a.term.ge(&b.term), model: Ghost(ZBool::Ge(Box::new(a.model@), Box::new(b.model@))), ctx: Ghost(a.ctx@) }
}

/// `z3::ast::Int::le` of two terms of one context.
#[verifier::external_body]
pub(crate) fn int_le<'c>(a: &IntTerm<'c>, b: &IntTerm<'c>) -> (r: BoolTerm<'c>)
    requires
        a.ctx() == b.ctx(),
    ensures
        r.model() == ZBool::Le(Box::new(a.model()), Box::new(b.model())),
        r.ctx() == a.ctx(),
{
    BoolTerm { term: a.term.le(&b.term), model: Ghost(ZBool::Le(Box::new(a.model@), Box::new(b.model@))), ctx: Ghost(a.ctx@) }
}

/// `z3::ast::Int::gt` of two terms of one context.
#[verifier::external_body]
pub(crate) fn int_gt<'c>(a: &IntTerm<'c>, b: &IntTerm<'c>) -> (r: BoolTerm<'c>)
    requires
        a.ctx() == b.ctx(),
    ensures
        r.model() == ZBool::Gt(Box::new(a.model()), Box::new(b.model())),
        r.ctx() == a.ctx(),
{
    BoolTerm { term: a.term.gt(&b.term), model: Ghost(ZBool::Gt(Box::new(a.model@), Box::new(b.model@))), ctx: Ghost(a.ctx@) }
}

/// `z3::ast::Int::lt` of two terms of one context.
#[verifier::external_body]
pub(crate) fn int_lt<'c>(a: &IntTerm<'c>, b: &IntTerm<'c>) -> (r: BoolTerm<'c>)
    requires
        a.ctx() == b.ctx(),
    ensures
        r.model() == ZBool::Lt(Box::new(a.model()), Box::new(b.model())),
        r.ctx() == a.ctx(),
{
    BoolTerm { term: a.term.lt(&b.term), model: Ghost(ZBool::Lt(Box::new(a.model@), Box::new(b.model@))), ctx: Ghost(a.ctx@) }
}

/// `Formula::from_bool`: `true` or `false`.
#[verifier::external_body]
pub(crate) fn bool_lit<'c>(ctx: &'c z3::Context, v: bool) -> (r: BoolTerm<'c>)
    ensures
        r.model() == ZBool::Lit(v),
        r.ctx() == *ctx,
{
    BoolTerm { term: Formula::from_bool(ctx, v), model: Ghost(ZBool::Lit(v)), ctx: Ghost(*ctx) }
}

/// `Formula::and` of two terms of one context.
#[verifier::external_body]
pub(crate) fn bool_and<'c>(ctx: &'c z3::Context, a: &BoolTerm<'c>, b: &BoolTerm<'c>) -> (r: BoolTerm<'c>)
    requires
        a.ctx() == *ctx,
        b.ctx() == *ctx,
    ensures
        r.model() == ZBool::And(Box::new(a.model()), Box::new(b.model())),
        r.ctx() == *ctx,
{
    BoolTerm { term: Formula::and(ctx, &[&a.term, &b.term]), model: Ghost(ZBool::And(Box::new(a.model@), Box::new(b.model@))), ctx: Ghost(*ctx) }
}

/// `Formula::or` of two terms of one context.
#[verifier::external_body]
pub(crate) fn bool_or<'c>(ctx: &'c z3::Context, a: &BoolTerm<'c>, b: &BoolTerm<'c>) -> (r: BoolTerm<'c>)
    requires
        a.ctx() == *ctx,
        b.ctx() == *ctx,
    ensures
        r.model() == ZBool::Or(Box::new(a.model()), Box::new(b.model())),
        r.ctx() == *ctx,
{
    BoolTerm { term: Formula::or(ctx, &[&a.term, &b.term]), model: Ghost(ZBool::Or(Box::new(a.model@), Box::new(b.model@))), ctx: Ghost(*ctx) }
}

/// `Formula::not`.
#[verifier::external_body]
pub(crate) fn bool_not<'c>(a: &BoolTerm<'c>) -> (r: BoolTerm<'c>)
    ensures
        r.model() == ZBool::Not(Box::new(a.model())),
        r.ctx() == a.ctx(),
{
    BoolTerm { term: a.term.not(), model: Ghost(ZBool::Not(Box::new(a.model@))), ctx: Ghost(a.ctx@) }
}

/// `Formula::implies` of two terms of one context: `a ==> b`.
#[verifier::external_body]
pub(crate) fn bool_implies<'c>(a: &BoolTerm<'c>, b: &BoolTerm<'c>) -> (r: BoolTerm<'c>)
    requires
        a.ctx() == b.ctx(),
    ensures
        r.model() == ZBool::Implies(Box::new(a.model()), Box::new(b.model())),
        r.ctx() == a.ctx(),
{
    BoolTerm { term: a.term.implies(&b.term), model: Ghost(ZBool::Implies(Box::new(a.model@), Box::new(b.model@))), ctx: Ghost(a.ctx@) }
}

/// `Formula::ite` on integer terms of one context.
#[verifier::external_body]
pub(crate) fn ite_int<'c>(c: &BoolTerm<'c>, a: &IntTerm<'c>, b: &IntTerm<'c>) -> (r: IntTerm<'c>)
    requires
        a.ctx() == c.ctx(),
        b.ctx() == c.ctx(),
    ensures
        r.model() == ZInt::Ite(Box::new(c.model()), Box::new(a.model()), Box::new(b.model())),
        r.ctx() == c.ctx(),
{
    IntTerm { term: c.term.ite(&a.term, &b.term), model: Ghost(ZInt::Ite(Box::new(c.model@), Box::new(a.model@), Box::new(b.model@))), ctx: Ghost(c.ctx@) }
}

/// `Formula::ite` on boolean terms of one context.
#[verifier::external_body]
pub(crate) fn ite_bool<'c>(c: &BoolTerm<'c>, a: &BoolTerm<'c>, b: &BoolTerm<'c>) -> (r: BoolTerm<'c>)
    requires
        a.ctx() == c.ctx(),
        b.ctx() == c.ctx(),
    ensures
        r.model() == ZBool::Ite(Box::new(c.model()), Box::new(a.model()), Box::new(b.model())),
        r.ctx() == c.ctx(),
{
    BoolTerm { term: c.term.ite(&a.term, &b.term), model: Ghost(ZBool::Ite(Box::new(c.model@), Box::new(a.model@), Box::new(b.model@))), ctx: Ghost(c.ctx@) }
}

/// `z3::ast::forall_const` over one integer constant, read as a boolean: a
/// quantified formula is one.
#[verifier::external_body]
pub(crate) fn forall_int<'c>(ctx: &'c z3::Context, var: &IntTerm<'c>, body: &BoolTerm<'c>) -> (r: Option<BoolTerm<'c>>)
    requires
        var.model() is Const,
        var.ctx() == *ctx,
        body.ctx() == *ctx,
    ensures
        r is Some,
        r->Some_0.model() == ZBool::Forall(var.model()->Const_0, Box::new(body.model())),
        r->Some_0.ctx() == *ctx,
{
    match z3::ast::forall_const(ctx, &[&z3::ast::Dynamic::from_ast(&var.term)], &[], &body.term).as_bool() {
        Some(t) => Some(BoolTerm { term: t, model: Ghost(ZBool::Forall(var.model@->Const_0, Box::new(body.model@))), ctx: Ghost(*ctx) }),
        None => None,
    }
}

/// `z3::ast::exists_const` over one integer constant, read as a boolean: a
/// quantified formula is one.
#[verifier::external_body]
pub(crate) fn exists_int<'c>(ctx: &'c z3::Context, var: &IntTerm<'c>, body: &BoolTerm<'c>) -> (r: Option<BoolTerm<'c>>)
    requires
        var.model() is Const,
        var.ctx() == *ctx,
        body.ctx() == *ctx,
    ensures
        r is Some,
        r->Some_0.model() == ZBool::Exists(var.model()->Const_0, Box::new(body.model())),
        r->Some_0.ctx() == *ctx,
{
    match z3::ast::exists_const(ctx, &[&z3::ast::Dynamic::from_ast(&var.term)], &[], &body.term).as_bool() {
        Some(t) => Some(BoolTerm { term: t, model: Ghost(ZBool::Exists(var.model@->Const_0, Box::new(body.model@))), ctx: Ghost(*ctx) }),
        None => None,
    }
}

/// `z3::Solver::assert`: adds a term of the solver's context to its
/// assertions.
#[verifier::external_body]
pub(crate) fn solver_assert<'c>(s: &mut Prover<'c>, t: &BoolTerm<'c>)
    requires
        t.ctx() == old(s).ctx(),
    ensures
        final(s).asserted() == old(s).asserted().push(t.model()),
        final(s).ctx() == old(s).ctx(),
{
    s.solver.assert(&t.term);
    s.asserted = Ghost(s.asserted@.push(t.model@));
}

/// `z3::Config::set_timeout_msec`: a time limit for the solvers of the
/// contexts made with the configuration, after which a check answers
/// `Unknown`.
#[verifier::external_body]
pub(crate) fn set_timeout(cfg: &mut z3::Config, ms: u64) {
    cfg.set_timeout_msec(ms)
}

/// `z3::Solver::check`: whether the assertions have a model.  `Unsat`
/// comes only where no valuation satisfies them, `Sat` only where one
/// does; of `Unknown` nothing is said.
#[verifier::external_body]
pub(crate) fn solver_check<'c>(s: &Prover<'c>) -> (r: Verdict)
    ensures
        r is Unsat ==> !satisfiable(s.asserted()),
        r is Sat ==> satisfiable(s.asserted()),
{
    match s.solver.check() {
        z3::SatResult::Sat => Verdict::Sat,
        z3::SatResult::Unsat => Verdict::Unsat,
        z3::SatResult::Unknown => Verdict::Unknown,
    }
}

} // verus!
