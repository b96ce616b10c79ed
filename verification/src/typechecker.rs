//! The syntax-directed typechecker.
//!
//! The outermost constructor of a term selects the one rule that applies, so
//! a term has at most one type under an environment and the first failure
//! met on the way is the one reported. `Pred` of a number is a number.
//! `Fix` has no rule: a term that reaches one does not typecheck.

use vstd::prelude::*;
use crate::term::{Env, Term};
use crate::tree::{Ix, Tm, Ty};

verus! {

/// Why a term has no type.
#[derive(Debug, Clone, Copy, PartialEq, Eq)]
pub enum TypeError {
    /// A variable refers to no binder and no entry of the environment.
    UnboundVariable,
    /// The operand of `Succ`, `Pred` or `IsZero` is not a number.
    NotANumber,
    /// The condition of an `If` is not a boolean.
    NotABoolean,
    /// The term applied is not a function.
    NotAFunction,
    /// An argument does not have the type of the parameter, or the two
    /// branches of an `If` have different types.
    Mismatch,
    /// The term is a `Fix`, for which there is no typing rule.
    NoRule,
}

/// The type of variable `i` under `env`: the `i`-th entry from the end.
pub open spec fn looked_up(env: Seq<Ty>, i: nat) -> Option<Ty> {
    if i < env.len() {
        Some(env[env.len() - 1 - i])
    } else {
        None
    }
}

/// The type of a term whose operand has the type `operand` and must be a
/// number.
pub open spec fn numeric(operand: Result<Ty, TypeError>, result: Ty) -> Result<Ty, TypeError> {
    match operand {
        Ok(Ty::Nat) => Ok(result),
        Ok(_) => Err(TypeError::NotANumber),
        Err(e) => Err(e),
    }
}

/// The type of `t` under `env`, or the first failure of the rules.
pub open spec fn type_in(t: Tm, env: Seq<Ty>) -> Result<Ty, TypeError>
    decreases t,
{
    match t {
        Tm::True | Tm::False => Ok(Ty::Bool),
        Tm::Zero => Ok(Ty::Nat),
        Tm::Succ(a) => numeric(type_in(*a, env), Ty::Nat),
        Tm::Pred(a) => numeric(type_in(*a, env), Ty::Nat),
        Tm::IsZero(a) => numeric(type_in(*a, env), Ty::Bool),
        Tm::Var(i) => match looked_up(env, i.depth()) {
            Some(ty) => Ok(ty),
            None => Err(TypeError::UnboundVariable),
        },
        Tm::Lam(param, b) => match type_in(*b, env.push(param)) {
            Ok(result) => Ok(Ty::Arrow(Box::new(param), Box::new(result))),
            Err(e) => Err(e),
        },
        Tm::App(f, a) => match type_in(*f, env) {
            Ok(Ty::Arrow(param, result)) => match type_in(*a, env) {
                Ok(arg) => if arg == *param {
                    Ok(*result)
                } else {
                    Err(TypeError::Mismatch)
                },
                Err(e) => Err(e),
            },
            Ok(_) => Err(TypeError::NotAFunction),
            Err(e) => Err(e),
        },
        Tm::If(c, x, y) => match type_in(*c, env) {
            Ok(Ty::Bool) => match type_in(*x, env) {
                Ok(then) => match type_in(*y, env) {
                    Ok(other) => if then == other {
                        Ok(then)
                    } else {
                        Err(TypeError::Mismatch)
                    },
                    Err(e) => Err(e),
                },
                Err(e) => Err(e),
            },
            Ok(_) => Err(TypeError::NotABoolean),
            Err(e) => Err(e),
        },
        Tm::Let(v, b) => match type_in(*v, env) {
            Ok(bound) => type_in(*b, env.push(bound)),
            Err(e) => Err(e),
        },
        Tm::Fix(_) => Err(TypeError::NoRule),
    }
}

/// The type of functions from `from` to `to`.
pub open spec fn function_type(from: Ty, to: Ty) -> Ty {
    Ty::Arrow(Box::new(from), Box::new(to))
}

/// The typing rules: whether `t` has the type `ty` under `env`. Each kind
/// of term has one rule, and `Fix` has none.
pub open spec fn has_type(env: Seq<Ty>, t: Tm, ty: Ty) -> bool
    decreases t,
{
    match t {
        Tm::True | Tm::False => ty == Ty::Bool,
        Tm::Zero => ty == Ty::Nat,
        Tm::Succ(a) | Tm::Pred(a) => ty == Ty::Nat && has_type(env, *a, Ty::Nat),
        Tm::IsZero(a) => ty == Ty::Bool && has_type(env, *a, Ty::Nat),
        Tm::Var(i) => looked_up(env, i.depth()) == Some(ty),
        Tm::Lam(param, b) => ty matches Ty::Arrow(from, to) && *from == param && has_type(
            env.push(param),
            *b,
            *to,
        ),
        Tm::App(f, a) => exists|param: Ty|
            has_type(env, *f, #[trigger] function_type(param, ty)) && has_type(env, *a, param),
        Tm::If(c, x, y) => has_type(env, *c, Ty::Bool) && has_type(env, *x, ty) && has_type(
            env,
            *y,
            ty,
        ),
        Tm::Let(v, b) => exists|bound: Ty|
            has_type(env, *v, bound) && has_type(#[trigger] env.push(bound), *b, ty),
        Tm::Fix(_) => false,
    }
}

/// The typechecker decides the typing rules: it gives a term the type `ty`
/// exactly when the rules do. So a term has at most one type.
pub proof fn lemma_type_in_decides_rules(t: Tm, env: Seq<Ty>, ty: Ty)
    ensures
        type_in(t, env) == Ok::<Ty, TypeError>(ty) <==> has_type(env, t, ty),
    decreases t,
{
    match t {
        Tm::True | Tm::False | Tm::Zero | Tm::Var(_) | Tm::Fix(_) => {},
        Tm::Succ(a) | Tm::Pred(a) | Tm::IsZero(a) => {
            lemma_type_in_decides_rules(*a, env, Ty::Nat);
        },
        Tm::Lam(param, b) => {
            if let Ty::Arrow(from, to) = ty {
                lemma_type_in_decides_rules(*b, env.push(param), *to);
            }
        },
        Tm::App(f, a) => {
            if type_in(t, env) == Ok::<Ty, TypeError>(ty) {
                let param = *type_in(*f, env)->Ok_0->Arrow_0;
                lemma_type_in_decides_rules(*f, env, function_type(param, ty));
                lemma_type_in_decides_rules(*a, env, param);
            }
            if has_type(env, t, ty) {
                let param = choose|param: Ty|
                    has_type(env, *f, #[trigger] function_type(param, ty)) && has_type(
                        env,
                        *a,
                        param,
                    );
                lemma_type_in_decides_rules(*f, env, function_type(param, ty));
                lemma_type_in_decides_rules(*a, env, param);
            }
        },
        Tm::If(c, x, y) => {
            lemma_type_in_decides_rules(*c, env, Ty::Bool);
            lemma_type_in_decides_rules(*x, env, ty);
            lemma_type_in_decides_rules(*y, env, ty);
        },
        Tm::Let(v, b) => {
            if type_in(t, env) == Ok::<Ty, TypeError>(ty) {
                let bound = type_in(*v, env)->Ok_0;
                lemma_type_in_decides_rules(*v, env, bound);
                lemma_type_in_decides_rules(*b, env.push(bound), ty);
            }
            if has_type(env, t, ty) {
                let bound = choose|bound: Ty|
                    has_type(env, *v, bound) && has_type(#[trigger] env.push(bound), *b, ty);
                lemma_type_in_decides_rules(*v, env, bound);
                lemma_type_in_decides_rules(*b, env.push(bound), ty);
            }
        },
    }
}

/// Whether `t` has a type with no binder around it.
pub open spec fn well_typed(t: Tm) -> bool {
    type_in(t, Seq::empty()) is Ok
}

/// The type of variable `i` among the first `top` entries of `env`.
fn lookup(env: &Vec<Ty>, i: &Ix, top: usize) -> (r: Option<Ty>)
    requires
        top <= env.len(),
    ensures
        r == looked_up(env@.take(top as int), i.depth()),
    decreases *i,
{
    if top == 0 {
        None
    } else {
        match i {
            Ix::Z => Some(env[top - 1].clone()),
            Ix::S(k) => {
                let r = lookup(env, k, top - 1);
                proof {
                    let here = env@.take(top as int);
                    let below = env@.take(top - 1);
                    if k.depth() < below.len() {
                        assert(here[here.len() - 1 - i.depth()] == below[below.len() - 1
                            - k.depth()]);
                    }
                }
                r
            },
        }
    }
}

/// Computes the type of `term` under `env`. The environment is used as a
/// stack while the term is walked and is handed back as it was.
pub fn check(term: &Tm, env: &mut Vec<Ty>) -> (r: Result<Ty, TypeError>)
    ensures
        final(env)@ == old(env)@,
        r == type_in(*term, old(env)@),
    decreases *term,
{
    match term {
        Tm::True | Tm::False => Ok(Ty::Bool),
        Tm::Zero => Ok(Ty::Nat),
        Tm::Succ(a) | Tm::Pred(a) => match check(a, env) {
            Ok(Ty::Nat) => Ok(Ty::Nat),
            Ok(_) => Err(TypeError::NotANumber),
            Err(e) => Err(e),
        },
        Tm::IsZero(a) => match check(a, env) {
            Ok(Ty::Nat) => Ok(Ty::Bool),
            Ok(_) => Err(TypeError::NotANumber),
            Err(e) => Err(e),
        },
        Tm::Var(i) => {
            assert(env@.take(env.len() as int) == env@);
            match lookup(env, i, env.len()) {
                Some(ty) => Ok(ty),
                None => Err(TypeError::UnboundVariable),
            }
        },
        Tm::Lam(param, b) => {
            env.push(param.clone());
            let body = check(b, env);
            env.pop();
            assert(env@ == old(env)@);
            match body {
                Ok(result) => Ok(Ty::Arrow(Box::new(param.clone()), Box::new(result))),
                Err(e) => Err(e),
            }
        },
        Tm::App(f, a) => match check(f, env) {
            Ok(Ty::Arrow(param, result)) => match check(a, env) {
                Ok(arg) => if arg == *param {
                    Ok(*result)
                } else {
                    Err(TypeError::Mismatch)
                },
                Err(e) => Err(e),
            },
            Ok(_) => Err(TypeError::NotAFunction),
            Err(e) => Err(e),
        },
        Tm::If(c, x, y) => match check(c, env) {
            Ok(Ty::Bool) => match check(x, env) {
                Ok(then) => match check(y, env) {
                    Ok(other) => if then == other {
                        Ok(then)
                    } else {
                        Err(TypeError::Mismatch)
                    },
                    Err(e) => Err(e),
                },
                Err(e) => Err(e),
            },
            Ok(_) => Err(TypeError::NotABoolean),
            Err(e) => Err(e),
        },
        Tm::Let(v, b) => match check(v, env) {
            Ok(bound) => {
                env.push(bound);
                let body = check(b, env);
                env.pop();
                assert(env@ == old(env)@);
                body
            },
            Err(e) => Err(e),
        },
        Tm::Fix(_) => Err(TypeError::NoRule),
    }
}

/// A term that can be typed under an environment of the form `E`.
pub trait WellTyped<E: Env>: Term {
    /// The type of the term under `env`, or why it has none.
    fn type_of(&self, env: &E) -> (r: Result<Ty, TypeError>)
        ensures
            r == type_in(self@, env@),
    ;
}

impl<T: Term, E: Env> WellTyped<E> for T {
    fn type_of(&self, env: &E) -> (r: Result<Ty, TypeError>) {
        let term = self.to_tm();
        let mut stack = env.to_vec();
        check(&term, &mut stack)
    }
}

/// Whether `term` has a type with no binder around it.
pub fn type_checks<T: Term>(term: &T) -> (r: bool)
    ensures
        r == well_typed(term@),
{
    let tree = term.to_tm();
    let mut stack: Vec<Ty> = Vec::new();
    check(&tree, &mut stack).is_ok()
}

} // verus!
