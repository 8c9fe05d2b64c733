//! Verification of programs written in a small subset of Rust, annotated
//! with `//%` comments (preconditions, postconditions, assertions, loop
//! invariants and variants).
pub mod ast;
pub mod equality;
pub mod copying;
pub mod variables;
pub mod validator;
pub mod simplifier;
pub mod context;
pub mod substitution;
pub mod prover;
pub mod smt;
pub mod solver;
pub mod parser;
pub mod clauses;
