//! What holds of every run: a run gives a value, its result does not depend
//! on the budget, numerals run to themselves, and a well-typed term keeps
//! its type.

use vstd::prelude::*;
use crate::evaluator::{continuation, evaluates_to, evaluation, EvalError};
use crate::lexer::{all_digits, decimal};
use crate::lower::{lemma_literal_term, term_of};
use crate::shift::{
    lemma_shift_closed, lemma_shift_down_up, lemma_subst_removes, reduced, shifted_down,
    substituted,
};
use crate::tree::{Tm, Ty};
use crate::typechecker::{looked_up, type_in, well_typed, TypeError};

verus! {

/// A run that ends well ends in a value.
pub proof fn lemma_evaluation_gives_value(t: Tm, fuel: nat)
    ensures
        evaluation(t, fuel) matches Ok(v) ==> v.spec_is_value(),
    decreases fuel, 1int, t,
{
    match t {
        Tm::True | Tm::False | Tm::Zero | Tm::Lam(_, _) | Tm::Var(_) => {},
        Tm::Succ(a) => {
            lemma_evaluation_gives_value(*a, fuel);
        },
        Tm::Pred(a) => {
            lemma_evaluation_gives_value(*a, fuel);
        },
        Tm::IsZero(a) => {
            lemma_evaluation_gives_value(*a, fuel);
        },
        Tm::If(c, x, y) => {
            lemma_evaluation_gives_value(*x, fuel);
            lemma_evaluation_gives_value(*y, fuel);
        },
        Tm::App(f, a) => {
            if let Ok(Tm::Lam(_, body)) = evaluation(*f, fuel) {
                if let Ok(v) = evaluation(*a, fuel) {
                    lemma_continuation_gives_value(*body, v, fuel);
                }
            }
        },
        Tm::Let(v, b) => {
            if let Ok(bound) = evaluation(*v, fuel) {
                lemma_continuation_gives_value(*b, bound, fuel);
            }
        },
        Tm::Fix(_) => {},
    }
}

proof fn lemma_continuation_gives_value(body: Tm, v: Tm, fuel: nat)
    ensures
        continuation(body, v, fuel) matches Ok(r) ==> r.spec_is_value(),
    decreases fuel, 0int,
{
    if let Some(next) = reduced(body, v) {
        if fuel > 0 {
            lemma_evaluation_gives_value(next, (fuel - 1) as nat);
        }
    }
}

/// A run that did not use up its budget ends the same way with any larger
/// budget.
pub proof fn lemma_more_fuel(t: Tm, fuel: nat, more: nat)
    requires
        fuel <= more,
        evaluation(t, fuel) != Err::<Tm, EvalError>(EvalError::OutOfFuel),
    ensures
        evaluation(t, more) == evaluation(t, fuel),
    decreases fuel, 1int, t,
{
    match t {
        Tm::True | Tm::False | Tm::Zero | Tm::Lam(_, _) | Tm::Var(_) => {},
        Tm::Succ(a) | Tm::Pred(a) | Tm::IsZero(a) | Tm::Fix(a) => {
            lemma_more_fuel(*a, fuel, more);
        },
        Tm::If(c, x, y) => {
            lemma_more_fuel(*c, fuel, more);
            match evaluation(*c, fuel) {
                Ok(Tm::True) => {
                    lemma_more_fuel(*x, fuel, more);
                },
                Ok(Tm::False) => {
                    lemma_more_fuel(*y, fuel, more);
                },
                _ => {},
            }
        },
        Tm::App(f, a) => {
            lemma_more_fuel(*f, fuel, more);
            if let Ok(Tm::Lam(_, body)) = evaluation(*f, fuel) {
                lemma_more_fuel(*a, fuel, more);
                if let Ok(v) = evaluation(*a, fuel) {
                    lemma_continuation_more_fuel(*body, v, fuel, more);
                }
            }
        },
        Tm::Let(v, b) => {
            lemma_more_fuel(*v, fuel, more);
            if let Ok(bound) = evaluation(*v, fuel) {
                lemma_continuation_more_fuel(*b, bound, fuel, more);
            }
        },
    }
}

proof fn lemma_continuation_more_fuel(body: Tm, v: Tm, fuel: nat, more: nat)
    requires
        fuel <= more,
        continuation(body, v, fuel) != Err::<Tm, EvalError>(EvalError::OutOfFuel),
    ensures
        continuation(body, v, more) == continuation(body, v, fuel),
    decreases fuel, 0int,
{
    if let Some(next) = reduced(body, v) {
        lemma_more_fuel(next, (fuel - 1) as nat, (more - 1) as nat);
    }
}

/// Evaluation is a function of the term: two runs of one term that both end
/// within their budgets end the same way, whatever the budgets were.
pub proof fn lemma_evaluation_deterministic(t: Tm, fuel1: nat, fuel2: nat)
    requires
        evaluation(t, fuel1) != Err::<Tm, EvalError>(EvalError::OutOfFuel),
        evaluation(t, fuel2) != Err::<Tm, EvalError>(EvalError::OutOfFuel),
    ensures
        evaluation(t, fuel1) == evaluation(t, fuel2),
{
    if fuel1 <= fuel2 {
        lemma_more_fuel(t, fuel1, fuel2);
    } else {
        lemma_more_fuel(t, fuel2, fuel1);
    }
}

/// A term runs to at most one value.
pub proof fn lemma_evaluates_to_unique(t: Tm, v1: Tm, v2: Tm)
    requires
        evaluates_to(t, v1),
        evaluates_to(t, v2),
    ensures
        v1 == v2,
{
    let f1 = choose|fuel: nat| evaluation(t, fuel) == Ok::<Tm, EvalError>(v1);
    let f2 = choose|fuel: nat| evaluation(t, fuel) == Ok::<Tm, EvalError>(v2);
    lemma_evaluation_deterministic(t, f1, f2);
}

/// The numeral for `n` runs to itself, with any budget.
pub proof fn lemma_numeral_evaluates_to_itself(n: nat, fuel: nat)
    ensures
        evaluation(Tm::numeral(n), fuel) == Ok::<Tm, EvalError>(Tm::numeral(n)),
        Tm::numeral(n).spec_is_numeral(),
    decreases n,
{
    if n > 0 {
        lemma_numeral_evaluates_to_itself((n - 1) as nat, fuel);
    }
}

/// An integer literal runs to its own number: the text of a decimal number
/// that fits in 64 bits writes a term that runs, with any budget, to the
/// chain of exactly that many `Succ` on `Zero`.
pub proof fn lemma_literal_round_trip(digits: Seq<char>, fuel: nat)
    requires
        digits.len() > 0,
        all_digits(digits),
        decimal(digits) <= u64::MAX,
    ensures
        term_of(digits) is Ok,
        evaluation(term_of(digits)->Ok_0, fuel) == Ok::<Tm, EvalError>(
            Tm::numeral(decimal(digits)),
        ),
{
    lemma_literal_term(digits);
    lemma_numeral_evaluates_to_itself(decimal(digits), fuel);
}

/// A term that has a type under `env` refers to nothing outside `env`.
pub proof fn lemma_typed_is_closed(t: Tm, env: Seq<Ty>)
    requires
        type_in(t, env) is Ok,
    ensures
        t.closed_at(env.len()),
    decreases t,
{
    match t {
        Tm::True | Tm::False | Tm::Zero | Tm::Var(_) | Tm::Fix(_) => {},
        Tm::Succ(a) | Tm::Pred(a) | Tm::IsZero(a) => {
            lemma_typed_is_closed(*a, env);
        },
        Tm::Lam(param, b) => {
            lemma_typed_is_closed(*b, env.push(param));
        },
        Tm::App(f, a) => {
            lemma_typed_is_closed(*f, env);
            lemma_typed_is_closed(*a, env);
        },
        Tm::If(c, x, y) => {
            lemma_typed_is_closed(*c, env);
            lemma_typed_is_closed(*x, env);
            lemma_typed_is_closed(*y, env);
        },
        Tm::Let(v, b) => {
            lemma_typed_is_closed(*v, env);
            lemma_typed_is_closed(*b, env.push(type_in(*v, env)->Ok_0));
        },
    }
}

/// A term keeps its type when binders are added outside everything it
/// refers to.
pub proof fn lemma_weakening(t: Tm, env: Seq<Ty>, outer: Seq<Ty>)
    requires
        type_in(t, env) is Ok,
    ensures
        type_in(t, outer + env) == type_in(t, env),
    decreases t,
{
    match t {
        Tm::True | Tm::False | Tm::Zero | Tm::Var(_) | Tm::Fix(_) => {},
        Tm::Succ(a) | Tm::Pred(a) | Tm::IsZero(a) => {
            lemma_weakening(*a, env, outer);
        },
        Tm::Lam(param, b) => {
            lemma_weakening(*b, env.push(param), outer);
            assert((outer + env).push(param) == outer + env.push(param));
        },
        Tm::App(f, a) => {
            lemma_weakening(*f, env, outer);
            lemma_weakening(*a, env, outer);
        },
        Tm::If(c, x, y) => {
            lemma_weakening(*c, env, outer);
            lemma_weakening(*x, env, outer);
            lemma_weakening(*y, env, outer);
        },
        Tm::Let(v, b) => {
            lemma_weakening(*v, env, outer);
            let bound = type_in(*v, env)->Ok_0;
            lemma_weakening(*b, env.push(bound), outer);
            assert((outer + env).push(bound) == outer + env.push(bound));
        },
    }
}

/// Putting a closed term of the right type in for a variable keeps the type
/// of the whole.
pub proof fn lemma_substitution(t: Tm, env: Seq<Ty>, j: nat, s: Tm)
    requires
        type_in(t, env) is Ok,
        type_in(s, Seq::empty()) == Ok::<Ty, TypeError>(looked_up(env, j)->Some_0),
        looked_up(env, j) is Some,
    ensures
        type_in(substituted(t, j, s), env) == type_in(t, env),
    decreases t,
{
    match t {
        Tm::True | Tm::False | Tm::Zero | Tm::Fix(_) => {},
        Tm::Var(i) => {
            if i.depth() == j {
                lemma_weakening(s, Seq::empty(), env);
                assert(env + Seq::<Ty>::empty() == env);
            }
        },
        Tm::Succ(a) | Tm::Pred(a) | Tm::IsZero(a) => {
            lemma_substitution(*a, env, j, s);
        },
        Tm::Lam(param, b) => {
            lemma_substitution(*b, env.push(param), j + 1, s);
        },
        Tm::App(f, a) => {
            lemma_substitution(*f, env, j, s);
            lemma_substitution(*a, env, j, s);
        },
        Tm::If(c, x, y) => {
            lemma_substitution(*c, env, j, s);
            lemma_substitution(*x, env, j, s);
            lemma_substitution(*y, env, j, s);
        },
        Tm::Let(v, b) => {
            lemma_substitution(*v, env, j, s);
            lemma_substitution(*b, env.push(type_in(*v, env)->Ok_0), j + 1, s);
        },
    }
}

/// A term that does not mention the variable `c` keeps its type when the
/// binder of `c` is removed and the term is shifted down.
pub proof fn lemma_strengthening(t: Tm, env: Seq<Ty>, c: nat)
    requires
        type_in(t, env) is Ok,
        c < env.len(),
        !t.mentions(c),
    ensures
        shifted_down(t, c) matches Some(d) && type_in(d, env.remove(env.len() - 1 - c)) == type_in(
            t,
            env,
        ),
    decreases t,
{
    lemma_shift_down_up(t, c);
    let at = env.len() - 1 - c;
    match t {
        Tm::True | Tm::False | Tm::Zero | Tm::Fix(_) | Tm::Var(_) => {},
        Tm::Succ(a) | Tm::Pred(a) | Tm::IsZero(a) => {
            lemma_strengthening(*a, env, c);
        },
        Tm::Lam(param, b) => {
            lemma_strengthening(*b, env.push(param), c + 1);
            assert(env.push(param).remove(at) == env.remove(at).push(param));
        },
        Tm::App(f, a) => {
            lemma_strengthening(*f, env, c);
            lemma_strengthening(*a, env, c);
        },
        Tm::If(x, y, z) => {
            lemma_strengthening(*x, env, c);
            lemma_strengthening(*y, env, c);
            lemma_strengthening(*z, env, c);
        },
        Tm::Let(v, b) => {
            lemma_strengthening(*v, env, c);
            let bound = type_in(*v, env)->Ok_0;
            lemma_strengthening(*b, env.push(bound), c + 1);
            assert(env.push(bound).remove(at) == env.remove(at).push(bound));
        },
    }
}

/// Removing a binder keeps the type: where `body` has the type `ty` under
/// one binder of the type of the closed term `v`, the reduced body exists
/// and has the type `ty` with no binder.
pub proof fn lemma_reduction_preserves_type(body: Tm, v: Tm, bound: Ty, ty: Ty)
    requires
        type_in(v, Seq::empty()) == Ok::<Ty, TypeError>(bound),
        type_in(body, seq![bound]) == Ok::<Ty, TypeError>(ty),
    ensures
        reduced(body, v) matches Some(next) && type_in(next, Seq::empty()) == Ok::<Ty, TypeError>(
            ty,
        ),
{
    let env = seq![bound];
    lemma_typed_is_closed(v, Seq::empty());
    lemma_shift_closed(v, 0);
    lemma_substitution(body, env, 0, v);
    let replaced = substituted(body, 0, v);
    lemma_subst_removes(body, 0, v, 0);
    lemma_strengthening(replaced, env, 0);
    assert(env.remove(0) == Seq::<Ty>::empty());
}

/// Type preservation: a term that has a type with no binder around it and
/// runs to a value runs to a value of that type.
pub proof fn lemma_type_preservation(t: Tm, fuel: nat)
    requires
        well_typed(t),
        evaluation(t, fuel) is Ok,
    ensures
        type_in(evaluation(t, fuel)->Ok_0, Seq::empty()) == type_in(t, Seq::empty()),
    decreases fuel, 1int, t,
{
    let empty = Seq::<Ty>::empty();
    match t {
        Tm::True | Tm::False | Tm::Zero | Tm::Lam(_, _) | Tm::Var(_) | Tm::Fix(_) => {},
        Tm::Succ(a) | Tm::Pred(a) | Tm::IsZero(a) => {
            lemma_type_preservation(*a, fuel);
        },
        Tm::If(c, x, y) => {
            lemma_type_preservation(*c, fuel);
            match evaluation(*c, fuel) {
                Ok(Tm::True) => {
                    lemma_type_preservation(*x, fuel);
                },
                Ok(Tm::False) => {
                    lemma_type_preservation(*y, fuel);
                },
                _ => {},
            }
        },
        Tm::App(f, a) => {
            lemma_type_preservation(*f, fuel);
            lemma_type_preservation(*a, fuel);
            let fun = evaluation(*f, fuel)->Ok_0;
            let arg = evaluation(*a, fuel)->Ok_0;
            let body = *fun->Lam_1;
            let bound = type_in(arg, empty)->Ok_0;
            let ty = type_in(t, empty)->Ok_0;
            assert(empty.push(bound) == seq![bound]);
            lemma_reduction_preserves_type(body, arg, bound, ty);
            assert(evaluation(t, fuel) == continuation(body, arg, fuel));
            assert(fuel > 0);
            lemma_type_preservation(reduced(body, arg)->Some_0, (fuel - 1) as nat);
        },
        Tm::Let(v, b) => {
            lemma_type_preservation(*v, fuel);
            let val = evaluation(*v, fuel)->Ok_0;
            let bound = type_in(val, empty)->Ok_0;
            let ty = type_in(t, empty)->Ok_0;
            assert(empty.push(bound) == seq![bound]);
            lemma_reduction_preserves_type(*b, val, bound, ty);
            assert(evaluation(t, fuel) == continuation(*b, val, fuel));
            assert(fuel > 0);
            lemma_type_preservation(reduced(*b, val)->Some_0, (fuel - 1) as nat);
        },
    }
}

/// A well-typed term does not go wrong: its run ends in a value or uses up
/// its budget, and meets none of the other errors.
pub proof fn lemma_well_typed_runs(t: Tm, fuel: nat)
    requires
        well_typed(t),
    ensures
        evaluation(t, fuel) is Ok || evaluation(t, fuel) == Err::<Tm, EvalError>(
            EvalError::OutOfFuel,
        ),
    decreases fuel, 1int, t,
{
    let empty = Seq::<Ty>::empty();
    match t {
        Tm::True | Tm::False | Tm::Zero | Tm::Lam(_, _) | Tm::Var(_) | Tm::Fix(_) => {},
        Tm::Succ(a) | Tm::Pred(a) | Tm::IsZero(a) => {
            lemma_well_typed_runs(*a, fuel);
            if evaluation(*a, fuel) is Ok {
                lemma_type_preservation(*a, fuel);
                lemma_evaluation_gives_value(*a, fuel);
                lemma_canonical_forms(evaluation(*a, fuel)->Ok_0);
            }
        },
        Tm::If(c, x, y) => {
            lemma_well_typed_runs(*c, fuel);
            if evaluation(*c, fuel) is Ok {
                lemma_type_preservation(*c, fuel);
                lemma_evaluation_gives_value(*c, fuel);
                lemma_canonical_forms(evaluation(*c, fuel)->Ok_0);
                lemma_well_typed_runs(*x, fuel);
                lemma_well_typed_runs(*y, fuel);
            }
        },
        Tm::App(f, a) => {
            lemma_well_typed_runs(*f, fuel);
            if evaluation(*f, fuel) is Ok {
                lemma_type_preservation(*f, fuel);
                lemma_evaluation_gives_value(*f, fuel);
                let fun = evaluation(*f, fuel)->Ok_0;
                lemma_canonical_forms(fun);
                lemma_well_typed_runs(*a, fuel);
                if evaluation(*a, fuel) is Ok {
                    lemma_type_preservation(*a, fuel);
                    let arg = evaluation(*a, fuel)->Ok_0;
                    let body = *fun->Lam_1;
                    let bound = type_in(arg, empty)->Ok_0;
                    let ty = type_in(t, empty)->Ok_0;
                    assert(empty.push(bound) == seq![bound]);
                    lemma_reduction_preserves_type(body, arg, bound, ty);
                    assert(evaluation(t, fuel) == continuation(body, arg, fuel));
                    if fuel > 0 {
                        lemma_well_typed_runs(reduced(body, arg)->Some_0, (fuel - 1) as nat);
                    }
                }
            }
        },
        Tm::Let(v, b) => {
            lemma_well_typed_runs(*v, fuel);
            if evaluation(*v, fuel) is Ok {
                lemma_type_preservation(*v, fuel);
                let val = evaluation(*v, fuel)->Ok_0;
                let bound = type_in(val, empty)->Ok_0;
                let ty = type_in(t, empty)->Ok_0;
                assert(empty.push(bound) == seq![bound]);
                lemma_reduction_preserves_type(*b, val, bound, ty);
                assert(evaluation(t, fuel) == continuation(*b, val, fuel));
                if fuel > 0 {
                    lemma_well_typed_runs(reduced(*b, val)->Some_0, (fuel - 1) as nat);
                }
            }
        },
    }
}

/// The shape of a well-typed value follows from its type: a boolean is
/// `True` or `False`, a number is a numeral, a function is a `Lam`.
pub proof fn lemma_canonical_forms(v: Tm)
    requires
        v.spec_is_value(),
        well_typed(v),
    ensures
        type_in(v, Seq::empty())->Ok_0 is Bool ==> v is True || v is False,
        type_in(v, Seq::empty())->Ok_0 is Nat ==> v.spec_is_numeral(),
        type_in(v, Seq::empty())->Ok_0 is Arrow ==> v is Lam,
    decreases v,
{
    match v {
        Tm::Succ(a) => {
            lemma_canonical_forms(*a);
        },
        _ => {},
    }
}

} // verus!
