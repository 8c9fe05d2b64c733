# rustp

`rustp` proves programs written in a small subset of Rust. The program is
annotated with `//%` comments:

```rust
//%precondition x >= 0 && y > 0
//%postcondition quo * y + rem == x
fn remainder(x: i32, y: i32) {
    let mut quo: i32 = 0;
    let mut rem: i32 = x;
    //%invariant quo * y + rem == x && y > 0 && rem >= 0
    //%variant rem
    while rem >= y {
        rem = rem - y;
        quo = quo + 1;
    }
}
```

The library reads such a program (`parser`), infers the types of its
bindings (`simplifier`), validates it (`validator`: no shadowing, no
reserved names, only defined names in annotations) and proves it (`prover`):
each function's precondition must give, through its code, its postcondition
and its assertions, by the weakest-precondition calculus, with the Z3 solver
deciding the obligations (`solver`, `smt`).

The library is written in Verus: every function states what it does in its
contract and Verus proves it, the parser against the grammar in
`parser::terms` and `parser::statements`, the calculus against
`prover`'s specification. Laws that relate several functions are stated as
proof functions (`law_*`).

The calls into Z3 are the part that is trusted rather than proved. Each
term that `smt` builds carries a model of the formula it stands for, and
the wrappers state how each Z3 operation builds that model. The models are
given their meaning over the integers (`smt::bool_value`), as are the
library's own formulas (`solver::formula_value`), and the translation is
proved to keep it. Of the solver's verdict only what holds of every run is
stated: `Unsat` only where nothing satisfies the formulas asserted. So
`solver::check_obligation` answers `true` only for an obligation that
holds, and `prover::prove` answers `true` only where every obligation of
the selected functions holds. A `false` may also come from the solver
giving up (it is given a time limit), which the contracts leave open.

`clauses` keeps the earlier formula representation, written out in prefix
notation.

`app/main.rs` is the command line tool. Its exit codes: 1 the file is not
Rust, 2 it could not be read as a program, 3 not all of it was read,
4 validation failed, 5 the proof failed.
