//! Clauses of a formula written out in prefix notation, the form the
//! solver reads: `(+ a b)` for `a + b`.
use vstd::prelude::*;

verus! {

/// A variable of a clause.
#[derive(Debug, PartialEq, Eq)]
pub enum Variable {
    Named(String),
}

/// An arithmetic operator.
#[derive(Debug, PartialEq, Eq)]
pub enum Opcode {
    Mul,
    Div,
    Add,
    Sub,
}

/// An arithmetic expression.
#[derive(Debug, PartialEq, Eq)]
pub enum Expr {
    Number(i32),
    Variable(Variable),
    Op(Box<Expr>, Opcode, Box<Expr>),
}

/// A clause: an expression, or an assertion already written out.
#[derive(Debug, PartialEq, Eq)]
pub enum Clause {
    Expr(Expr),
    Assert(String),
}

/// A function: its name and its clauses.
pub struct Function {
    pub name: String,
    pub content: Vec<Clause>,
}

// ------------------------------------------------------------------
// Specification: the text of each piece
// ------------------------------------------------------------------
pub open spec fn digit_char(d: int) -> char {
    if d == 0 { '0' } else if d == 1 { '1' } else if d == 2 { '2' } else if d == 3 { '3' } else if d == 4 {
        '4'
    } else if d == 5 { '5' } else if d == 6 { '6' } else if d == 7 { '7' } else if d == 8 { '8' } else { '9' }
}

/// The decimal digits of `n`.
pub open spec fn nat_text(n: nat) -> Seq<char>
    decreases n,
{
    if n < 10 {
        seq![digit_char(n as int)]
    } else {
        nat_text(n / 10) + seq![digit_char((n % 10) as int)]
    }
}

/// `n` in decimal, with a `-` before a negative number.
pub open spec fn int_text(n: int) -> Seq<char> {
    if n < 0 {
        seq!['-'] + nat_text((-n) as nat)
    } else {
        nat_text(n as nat)
    }
}

pub open spec fn op_text(o: Opcode) -> Seq<char> {
    match o {
        Opcode::Mul => seq!['*'],
        Opcode::Div => seq!['/'],
        Opcode::Add => seq!['+'],
        Opcode::Sub => seq!['-'],
    }
}

/// `(op a b)` for `a op b`.
pub open spec fn expr_text(e: Expr) -> Seq<char>
    decreases e,
{
    match e {
        Expr::Number(n) => int_text(n as int),
        Expr::Variable(Variable::Named(x)) => x@,
        Expr::Op(a, o, b) => seq!['('] + op_text(o) + seq![' '] + expr_text(*a) + seq![' '] + expr_text(*b) + seq![')'],
    }
}

pub open spec fn clause_text(c: Clause) -> Seq<char> {
    match c {
        Clause::Expr(e) => expr_text(e),
        Clause::Assert(s) => s@,
    }
}

/// Each clause followed by a tab.
pub open spec fn clauses_text(cs: Seq<Clause>) -> Seq<char>
    decreases cs.len(),
{
    if cs.len() == 0 {
        Seq::empty()
    } else {
        clauses_text(cs.drop_last()) + clause_text(cs.last()) + seq!['\t']
    }
}

// ------------------------------------------------------------------
// Implementation
// ------------------------------------------------------------------
fn digit(d: u64) -> (r: &'static str)
    requires
        d < 10,
    ensures
        r@ == seq![digit_char(d as int)],
{
    proof {
        reveal_strlit("0");
        reveal_strlit("1");
        reveal_strlit("2");
        reveal_strlit("3");
        reveal_strlit("4");
        reveal_strlit("5");
        reveal_strlit("6");
        reveal_strlit("7");
        reveal_strlit("8");
        reveal_strlit("9");
    }
    if d == 0 { "0" } else if d == 1 { "1" } else if d == 2 { "2" } else if d == 3 { "3" } else if d == 4 {
        "4"
    } else if d == 5 { "5" } else if d == 6 { "6" } else if d == 7 { "7" } else if d == 8 { "8" } else { "9" }
}

fn push_nat(out: &mut String, n: u64)
    ensures
        final(out)@ == old(out)@ + nat_text(n as nat),
    decreases n,
{
    if n >= 10 {
        push_nat(out, n / 10);
    }
    out.append(digit(n % 10));
    proof {
        if n >= 10 {
            assert(nat_text(n as nat) == nat_text((n / 10) as nat) + seq![digit_char((n % 10) as int)]);
        }
    }
}

/// `n` in decimal.
pub fn int_string(n: i32) -> (r: String)
    ensures
        r@ == int_text(n as int),
{
    let mut out = String::new();
    if n < 0 {
        out.append("-");
        proof {
            reveal_strlit("-");
        }
        let m: i64 = -(n as i64);
        push_nat(&mut out, m as u64);
    } else {
        push_nat(&mut out, n as u64);
    }
    out
}

fn op_str(o: &Opcode) -> (r: &'static str)
    ensures
        r@ == op_text(*o),
{
    proof {
        reveal_strlit("*");
        reveal_strlit("/");
        reveal_strlit("+");
        reveal_strlit("-");
    }
    match o {
        Opcode::Mul => "*",
        Opcode::Div => "/",
        Opcode::Add => "+",
        Opcode::Sub => "-",
    }
}

impl Opcode {
    /// The operator's symbol.
    pub fn to_text(&self) -> (r: String)
        ensures
            r@ == op_text(*self),
    {
        let mut out = String::new();
        out.append(op_str(self));
        out
    }
}

fn push_expr(out: &mut String, e: &Expr)
    ensures
        final(out)@ == old(out)@ + expr_text(*e),
    decreases e,
{
    proof {
        reveal_strlit("(");
        reveal_strlit(" ");
        reveal_strlit(")");
    }
    match e {
        Expr::Number(n) => {
            let t = int_string(*n);
            out.append(t.as_str());
        },
        Expr::Variable(Variable::Named(x)) => {
            out.append(x.as_str());
        },
        Expr::Op(a, o, b) => {
            out.append("(");
            out.append(op_str(o));
            out.append(" ");
            push_expr(out, a);
            out.append(" ");
            push_expr(out, b);
            out.append(")");
        },
    }
}

impl Expr {
    /// The expression in prefix notation: `(op a b)`.
    pub fn to_text(&self) -> (r: String)
        ensures
            r@ == expr_text(*self),
    {
        let mut out = String::new();
        push_expr(&mut out, self);
        out
    }
}

impl Variable {
    /// The variable's name.
    pub fn to_text(&self) -> (r: String)
        ensures
            r@ == (match self {
                Variable::Named(x) => x@,
            }),
    {
        match self {
            Variable::Named(x) => x.clone(),
        }
    }
}

fn push_clause(out: &mut String, c: &Clause)
    ensures
        final(out)@ == old(out)@ + clause_text(*c),
{
    match c {
        Clause::Expr(e) => push_expr(out, e),
        Clause::Assert(s) => out.append(s.as_str()),
    }
}

impl Clause {
    /// The clause as text.
    pub fn to_text(&self) -> (r: String)
        ensures
            r@ == clause_text(*self),
    {
        let mut out = String::new();
        push_clause(&mut out, self);
        out
    }
}

impl Function {
    /// The name, a space, then each clause followed by a tab.
    pub fn to_text(&self) -> (r: String)
        ensures
            r@ == self.name@ + seq![' '] + clauses_text(self.content@),
    {
        proof {
            reveal_strlit(" ");
            reveal_strlit("\t");
        }
        let mut out = self.name.clone();
        out.append(" ");
        let ghost start = out@;
        let mut i: usize = 0;
        assert(self.content@.take(0) =~= Seq::<Clause>::empty());
        while i < self.content.len()
            invariant
                i <= self.content.len(),
                out@ == start + clauses_text(self.content@.take(i as int)),
            decreases self.content.len() - i,
        {
            let ghost before = out@;
            push_clause(&mut out, &self.content[i]);
            let ghost mid = out@;
            assert(mid == before + clause_text(self.content@[i as int]));
            let tab: &str = "\t";
            proof {
                reveal_strlit("\t");
                assert(tab@ =~= seq!['\t']);
            }
            out.append(tab);
            assert(out@ =~= mid + seq!['\t']);
            proof {
                assert(self.content@.take(i + 1).drop_last() =~= self.content@.take(i as int));
                assert(self.content@.take(i + 1).last() == self.content@[i as int]);
                assert(clauses_text(self.content@.take(i + 1)) == clauses_text(self.content@.take(i as int))
                    + clause_text(self.content@[i as int]) + seq!['\t']);
                assert(out@ =~= start + clauses_text(self.content@.take(i + 1)));
            }
            i = i + 1;
        }
        assert(self.content@.take(i as int) =~= self.content@);
        out
    }
}

} // verus!
