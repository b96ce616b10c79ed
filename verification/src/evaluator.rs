//! The big-step, call-by-value evaluator.
//!
//! There are no environments and no closures: a binder is removed by
//! substituting the value into its body (`shift::reduce`). Evaluation does
//! not look under a function that is not applied. `Fix` is unrolled once.
//!
//! A term with `Fix` may run forever, so every run has a budget: each
//! binder that is removed (an application or a `Let`) costs one unit, and a
//! run that needs more than it was given ends in `OutOfFuel`.

use vstd::prelude::*;
use crate::shift::{reduce, reduced, subst, substituted};
use crate::term::{False, Lam, Succ, Term, True, Type, Zero};
use crate::tree::{Ix, Tm};

verus! {

/// Why a run gave no value.
#[derive(Debug, Clone, Copy, PartialEq, Eq)]
pub enum EvalError {
    /// The term has a variable that no binder introduces.
    FreeVariable,
    /// The term applied, or the operand of `Fix`, is not a function.
    NotCallable,
    /// The operand of `Succ`, `Pred` or `IsZero` is not a number.
    NotANumber,
    /// The condition of an `If` is not a boolean.
    NotABoolean,
    /// A `Fix`, unrolled once, is not a value.
    NotAValue,
    /// Removing a binder left a variable with nothing to refer to.
    Escaped,
    /// The budget was used up.
    OutOfFuel,
}

/// The result of running `t` with a budget of `fuel`.
pub open spec fn evaluation(t: Tm, fuel: nat) -> Result<Tm, EvalError>
    decreases fuel, 1int, t,
{
    match t {
        Tm::True | Tm::False | Tm::Zero | Tm::Lam(_, _) => Ok(t),
        Tm::Var(_) => Err(EvalError::FreeVariable),
        Tm::Succ(a) => match evaluation(*a, fuel) {
            Ok(v) => if v.spec_is_numeral() {
                Ok(Tm::Succ(Box::new(v)))
            } else {
                Err(EvalError::NotANumber)
            },
            Err(e) => Err(e),
        },
        Tm::Pred(a) => match evaluation(*a, fuel) {
            Ok(Tm::Zero) => Ok(Tm::Zero),
            Ok(Tm::Succ(v)) => Ok(*v),
            Ok(_) => Err(EvalError::NotANumber),
            Err(e) => Err(e),
        },
        Tm::IsZero(a) => match evaluation(*a, fuel) {
            Ok(Tm::Zero) => Ok(Tm::True),
            Ok(Tm::Succ(_)) => Ok(Tm::False),
            Ok(_) => Err(EvalError::NotANumber),
            Err(e) => Err(e),
        },
        Tm::If(c, x, y) => match evaluation(*c, fuel) {
            Ok(Tm::True) => evaluation(*x, fuel),
            Ok(Tm::False) => evaluation(*y, fuel),
            Ok(_) => Err(EvalError::NotABoolean),
            Err(e) => Err(e),
        },
        Tm::App(f, a) => match evaluation(*f, fuel) {
            Ok(Tm::Lam(_, body)) => match evaluation(*a, fuel) {
                Ok(v) => continuation(*body, v, fuel),
                Err(e) => Err(e),
            },
            Ok(_) => Err(EvalError::NotCallable),
            Err(e) => Err(e),
        },
        Tm::Let(v, b) => match evaluation(*v, fuel) {
            Ok(bound) => continuation(*b, bound, fuel),
            Err(e) => Err(e),
        },
        Tm::Fix(a) => match evaluation(*a, fuel) {
            Ok(Tm::Lam(ty, body)) => {
                let unrolled = substituted(*body, 0, Tm::Fix(Box::new(Tm::Lam(ty, body))));
                if unrolled.spec_is_value() {
                    Ok(unrolled)
                } else {
                    Err(EvalError::NotAValue)
                }
            },
            Ok(_) => Err(EvalError::NotCallable),
            Err(e) => Err(e),
        },
    }
}

/// The result of removing the binder around `body` with the value `v` and
/// running what is left. This is the step that costs one unit of fuel.
pub open spec fn continuation(body: Tm, v: Tm, fuel: nat) -> Result<Tm, EvalError>
    decreases fuel, 0int,
{
    match reduced(body, v) {
        None => Err(EvalError::Escaped),
        Some(next) => if fuel == 0 {
            Err(EvalError::OutOfFuel)
        } else {
            evaluation(next, (fuel - 1) as nat)
        },
    }
}

/// Whether `t` runs to `v` with some budget.
pub open spec fn evaluates_to(t: Tm, v: Tm) -> bool {
    exists|fuel: nat| evaluation(t, fuel) == Ok::<Tm, EvalError>(v)
}

/// Runs `term` with a budget of `fuel`.
pub fn run(term: &Tm, fuel: u64) -> (r: Result<Tm, EvalError>)
    ensures
        r == evaluation(*term, fuel as nat),
    decreases fuel, 1int, *term,
{
    match term {
        Tm::True => Ok(Tm::True),
        Tm::False => Ok(Tm::False),
        Tm::Zero => Ok(Tm::Zero),
        Tm::Lam(_, _) => Ok(term.clone()),
        Tm::Var(_) => Err(EvalError::FreeVariable),
        Tm::Succ(a) => match run(a, fuel) {
            Ok(v) => if v.is_numeral() {
                Ok(Tm::Succ(Box::new(v)))
            } else {
                Err(EvalError::NotANumber)
            },
            Err(e) => Err(e),
        },
        Tm::Pred(a) => match run(a, fuel) {
            Ok(Tm::Zero) => Ok(Tm::Zero),
            Ok(Tm::Succ(v)) => Ok(*v),
            Ok(_) => Err(EvalError::NotANumber),
            Err(e) => Err(e),
        },
        Tm::IsZero(a) => match run(a, fuel) {
            Ok(Tm::Zero) => Ok(Tm::True),
            Ok(Tm::Succ(_)) => Ok(Tm::False),
            Ok(_) => Err(EvalError::NotANumber),
            Err(e) => Err(e),
        },
        Tm::If(c, x, y) => match run(c, fuel) {
            Ok(Tm::True) => run(x, fuel),
            Ok(Tm::False) => run(y, fuel),
            Ok(_) => Err(EvalError::NotABoolean),
            Err(e) => Err(e),
        },
        Tm::App(f, a) => match run(f, fuel) {
            Ok(Tm::Lam(_, body)) => match run(a, fuel) {
                Ok(v) => resume(&body, &v, fuel),
                Err(e) => Err(e),
            },
            Ok(_) => Err(EvalError::NotCallable),
            Err(e) => Err(e),
        },
        Tm::Let(v, b) => match run(v, fuel) {
            Ok(bound) => resume(b, &bound, fuel),
            Err(e) => Err(e),
        },
        Tm::Fix(a) => match run(a, fuel) {
            Ok(Tm::Lam(ty, body)) => {
                let whole = Tm::Fix(Box::new(Tm::Lam(ty, body.clone())));
                let unrolled = subst(&body, &Ix::Z, &whole);
                if unrolled.is_value() {
                    Ok(unrolled)
                } else {
                    Err(EvalError::NotAValue)
                }
            },
            Ok(_) => Err(EvalError::NotCallable),
            Err(e) => Err(e),
        },
    }
}

/// Removes the binder around `body` with `value` and runs what is left.
fn resume(body: &Tm, value: &Tm, fuel: u64) -> (r: Result<Tm, EvalError>)
    ensures
        r == continuation(*body, *value, fuel as nat),
    decreases fuel, 0int,
{
    match reduce(body, value) {
        None => Err(EvalError::Escaped),
        Some(next) => if fuel == 0 {
            Err(EvalError::OutOfFuel)
        } else {
            run(&next, fuel - 1)
        },
    }
}

/// A term that is a value whatever it is made of: evaluation has nothing
/// left to do on it.
pub trait Value: Term {
    /// What the term stands for is a value.
    proof fn lemma_is_value(&self)
        ensures
            self@.spec_is_value(),
    ;
}

impl Value for True {
    proof fn lemma_is_value(&self) {
    }
}

impl Value for False {
    proof fn lemma_is_value(&self) {
    }
}

impl Value for Zero {
    proof fn lemma_is_value(&self) {
    }
}

impl<N: Value> Value for Succ<N> {
    proof fn lemma_is_value(&self) {
        self.0.lemma_is_value();
    }
}

impl<Tp: Type, T: Term> Value for Lam<Tp, T> {
    proof fn lemma_is_value(&self) {
    }
}

/// A term that can be run.
pub trait Eval: Term {
    /// Runs the term with a budget of `fuel`.
    fn eval(&self, fuel: u64) -> (r: Result<Tm, EvalError>)
        ensures
            r == evaluation(self@, fuel as nat),
    ;
}

impl<T: Term> Eval for T {
    fn eval(&self, fuel: u64) -> (r: Result<Tm, EvalError>) {
        let tree = self.to_tm();
        run(&tree, fuel)
    }
}

/// Runs `term` with a budget of `fuel`.
pub fn eval<T: Eval>(term: &T, fuel: u64) -> (r: Result<Tm, EvalError>)
    ensures
        r == evaluation(term@, fuel as nat),
{
    term.eval(fuel)
}

/// Whether `term`, run with a budget of `fuel`, gives the value `value`.
pub fn eval_to<T: Eval, V: Value>(term: &T, value: &V, fuel: u64) -> (r: bool)
    ensures
        r == (evaluation(term@, fuel as nat) == Ok::<Tm, EvalError>(value@)),
{
    match term.eval(fuel) {
        Ok(v) => v == value.to_tm(),
        Err(_) => false,
    }
}

} // verus!
