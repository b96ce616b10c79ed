use stlcrts::evaluator::{eval, eval_to, EvalError};
use stlcrts::term::{
    App, Arrow, Bool, False, Fix, If, IsZero, Lam, Let, Nat, Pred, Succ, True, Var, Zero, I0, ISucc,
};
use stlcrts::tree::Tm;
use stlcrts::typechecker::type_checks;

fn numeral(n: u64) -> Tm {
    let mut t = Tm::Zero;
    for _ in 0..n {
        t = Tm::Succ(Box::new(t));
    }
    t
}

#[test]
fn conditional_on_true_takes_first_branch() {
    let term = If(True, False, True);
    assert!(type_checks(&term));
    assert_eq!(eval(&term, 0), Ok(Tm::False));
    assert!(eval_to(&term, &False, 0));
}

#[test]
fn negation_applied_to_true() {
    let term = App(Lam(Bool, If(Var(I0), False, True)), True);
    assert_eq!(eval(&term, 10), Ok(Tm::False));
    assert!(eval_to(&term, &False, 10));
}

#[test]
fn identity_applied_to_identity() {
    let term = App(Lam(Arrow(Bool, Bool), Var(I0)), Lam(Bool, Var(I0)));
    assert!(eval_to(&term, &Lam(Bool, Var(I0)), 10));
}

#[test]
fn recursive_addition_of_three_and_fifteen() {
    let add = Fix(Lam(
        Arrow(Nat, Arrow(Nat, Nat)),
        Lam(
            Nat,
            Lam(
                Nat,
                If(
                    App(Lam(Nat, IsZero(Var(I0))), Var(ISucc(I0))),
                    Var(I0),
                    Succ(App(
                        App(Var(ISucc(ISucc(I0))), App(Lam(Nat, Pred(Var(I0))), Var(ISucc(I0)))),
                        Var(I0),
                    )),
                ),
            ),
        ),
    ));
    let term = Let(add, App(App(Var(I0), numeral(3)), numeral(15)));
    assert_eq!(eval(&term, 1000), Ok(numeral(18)));
}

#[test]
fn predecessor_floors_at_zero() {
    assert_eq!(eval(&App(Lam(Nat, Pred(Var(I0))), numeral(5)), 10), Ok(numeral(4)));
    assert_eq!(eval(&App(Lam(Nat, Pred(Var(I0))), numeral(0)), 10), Ok(numeral(0)));
    assert!(eval_to(&Pred(Zero), &Zero, 0));
}

#[test]
fn boolean_connectives_under_let() {
    let term = Let(
        Lam(Bool, If(Var(I0), False, True)),
        Let(
            Lam(Bool, Lam(Bool, If(Var(ISucc(I0)), Var(I0), False))),
            App(App(Var(I0), True), App(Var(ISucc(I0)), False)),
        ),
    );
    assert!(type_checks(&term));
    assert!(eval_to(&term, &True, 100));
}

#[test]
fn budget_runs_out() {
    let term = App(Lam(Bool, Var(I0)), True);
    assert_eq!(eval(&term, 0), Err(EvalError::OutOfFuel));
    assert_eq!(eval(&term, 1), Ok(Tm::True));
}

#[test]
fn values_run_to_themselves() {
    assert_eq!(eval(&True, 0), Ok(Tm::True));
    assert_eq!(eval(&Zero, 0), Ok(Tm::Zero));
    assert_eq!(eval(&numeral(6), 0), Ok(numeral(6)));
    let function = Lam(Nat, App(True, True));
    assert_eq!(eval(&function, 0), Ok(Tm::Lam(
        stlcrts::tree::Ty::Nat,
        Box::new(Tm::App(Box::new(Tm::True), Box::new(Tm::True)))
    )));
}

#[test]
fn numbers() {
    assert_eq!(eval(&Succ(Succ(Zero)), 0), Ok(numeral(2)));
    assert_eq!(eval(&Pred(Succ(Succ(Zero))), 0), Ok(numeral(1)));
    assert_eq!(eval(&Pred(Zero), 0), Ok(Tm::Zero));
    assert_eq!(eval(&IsZero(Zero), 0), Ok(Tm::True));
    assert_eq!(eval(&IsZero(Succ(Zero)), 0), Ok(Tm::False));
    assert_eq!(eval(&IsZero(Pred(Succ(Zero))), 0), Ok(Tm::True));
}

#[test]
fn the_branch_not_taken_is_not_run() {
    assert_eq!(eval(&If(True, Zero, App(True, True)), 0), Ok(Tm::Zero));
    assert_eq!(eval(&If(False, App(True, True), Zero), 0), Ok(Tm::Zero));
    assert_eq!(eval(&If(True, App(True, True), Zero), 0), Err(EvalError::NotCallable));
}

#[test]
fn let_binds_the_value() {
    assert_eq!(eval(&Let(Succ(Zero), Succ(Var(I0))), 1), Ok(numeral(2)));
    assert_eq!(eval(&Let(Succ(Zero), Succ(Var(I0))), 0), Err(EvalError::OutOfFuel));
    assert_eq!(
        eval(&Let(True, Let(False, If(Var(I0), Var(I0), Var(ISucc(I0))))), 2),
        Ok(Tm::True)
    );
}

#[test]
fn fix_is_unrolled_once() {
    let body = Lam(Nat, App(Var(ISucc(I0)), Var(I0)));
    let term = Fix(Lam(Arrow(Nat, Nat), body));
    let whole = Tm::Fix(Box::new(stlcrts::term::Term::to_tm(&Lam(
        Arrow(Nat, Nat),
        Lam(Nat, App(Var(ISucc(I0)), Var(I0))),
    ))));
    assert_eq!(
        eval(&term, 0),
        Ok(Tm::Lam(
            stlcrts::tree::Ty::Nat,
            Box::new(Tm::App(
                Box::new(whole),
                Box::new(Tm::Var(stlcrts::tree::Ix::Z))
            ))
        ))
    );
}

#[test]
fn every_evaluation_error() {
    assert_eq!(eval(&Var(I0), 5), Err(EvalError::FreeVariable));
    assert_eq!(eval(&App(True, Zero), 5), Err(EvalError::NotCallable));
    assert_eq!(eval(&Fix(Zero), 5), Err(EvalError::NotCallable));
    assert_eq!(eval(&Succ(True), 5), Err(EvalError::NotANumber));
    assert_eq!(eval(&Succ(Lam(Nat, Var(I0))), 5), Err(EvalError::NotANumber));
    assert_eq!(eval(&Pred(False), 5), Err(EvalError::NotANumber));
    assert_eq!(eval(&IsZero(Lam(Nat, Var(I0))), 5), Err(EvalError::NotANumber));
    assert_eq!(eval(&If(Zero, True, False), 5), Err(EvalError::NotABoolean));
    assert_eq!(eval(&Fix(Lam(Nat, Succ(Var(I0)))), 5), Err(EvalError::NotAValue));
    assert_eq!(
        eval(&App(Lam(Nat, Lam(Nat, Var(ISucc(I0)))), Lam(Nat, Var(ISucc(I0)))), 5),
        Err(EvalError::Escaped)
    );
    assert_eq!(eval(&App(Lam(Nat, Var(I0)), Zero), 0), Err(EvalError::OutOfFuel));
}

#[test]
fn a_loop_uses_up_any_budget() {
    let forever = App(Fix(Lam(Arrow(Nat, Nat), Lam(Nat, App(Var(ISucc(I0)), Var(I0))))), Zero);
    assert_eq!(eval(&forever, 0), Err(EvalError::OutOfFuel));
    assert_eq!(eval(&forever, 10), Err(EvalError::OutOfFuel));
    assert_eq!(eval(&forever, 500), Err(EvalError::OutOfFuel));
}

#[test]
fn the_result_does_not_depend_on_the_budget() {
    let term = App(Lam(Nat, App(Lam(Nat, Succ(Var(I0))), Succ(Var(I0)))), Zero);
    assert_eq!(eval(&term, 1), Err(EvalError::OutOfFuel));
    assert_eq!(eval(&term, 2), Ok(numeral(2)));
    assert_eq!(eval(&term, 3), Ok(numeral(2)));
    assert_eq!(eval(&term, 1000), Ok(numeral(2)));
    assert_eq!(eval(&term, 2), eval(&term, 2));
}

#[test]
fn eval_to_compares_with_a_value() {
    assert!(eval_to(&Succ(Pred(Succ(Zero))), &Succ(Zero), 0));
    assert!(!eval_to(&Succ(Pred(Succ(Zero))), &Zero, 0));
    assert!(!eval_to(&App(True, True), &True, 5));
    assert!(!eval_to(&App(Lam(Bool, Var(I0)), True), &True, 0));
}
