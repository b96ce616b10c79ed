//! A small interpreter and typechecker for a simply typed lambda calculus
//! with booleans, natural numbers, conditionals, functions, local
//! definitions and general recursion.
//!
//! Terms use de Bruijn indices. `tree` holds the run-time trees and `term`
//! the formers to write them down with; `shift` is the substitution engine,
//! `typechecker` and `evaluator` work on top of it, and `soundness` proves
//! what holds of the two together. `lexer`, `parser` and `lower` turn a
//! source text with named variables into a term.

pub mod tree;
pub mod term;
pub mod shift;
pub mod typechecker;
pub mod evaluator;
pub mod soundness;
pub mod lexer;
pub mod parser;
pub mod lower;

pub use evaluator::{eval, eval_to, Eval, EvalError, Value};
pub use lexer::LowerError;
pub use lower::stlc;
pub use shift::{ShiftBy1, ShiftByNeg1, Subst};
pub use term::{
    App, Arrow, Bool, EmptyEnv, Env, False, Fix, If, Index, IsZero, Lam, Let, Nat, Pred, Succ,
    Term, True, TyCons, Type, Var, Zero, I0, ISucc,
};
pub use tree::{Ix, Tm, Ty};
pub use typechecker::{type_checks, TypeError, WellTyped};
