use stlcrts::evaluator::eval;
use stlcrts::term::{
    App, Arrow, Bool, EmptyEnv, False, Fix, If, IsZero, Lam, Let, Nat, Pred, Succ, True, TyCons,
    Var, Zero, I0, ISucc,
};
use stlcrts::tree::{Tm, Ty};
use stlcrts::typechecker::{check, type_checks, TypeError, WellTyped};

fn arrow(a: Ty, b: Ty) -> Ty {
    Ty::Arrow(Box::new(a), Box::new(b))
}

#[test]
fn constants_have_their_types() {
    assert_eq!(True.type_of(&EmptyEnv), Ok(Ty::Bool));
    assert_eq!(False.type_of(&EmptyEnv), Ok(Ty::Bool));
    assert_eq!(Zero.type_of(&EmptyEnv), Ok(Ty::Nat));
    assert_eq!(Succ(Zero).type_of(&EmptyEnv), Ok(Ty::Nat));
    assert_eq!(IsZero(Zero).type_of(&EmptyEnv), Ok(Ty::Bool));
}

#[test]
fn predecessor_of_a_number_is_a_number() {
    assert_eq!(Pred(Zero).type_of(&EmptyEnv), Ok(Ty::Nat));
    assert_eq!(Pred(Succ(Zero)).type_of(&EmptyEnv), Ok(Ty::Nat));
    assert_eq!(IsZero(Pred(Zero)).type_of(&EmptyEnv), Ok(Ty::Bool));
    assert_eq!(Succ(Pred(Zero)).type_of(&EmptyEnv), Ok(Ty::Nat));
}

#[test]
fn variables_are_looked_up_from_the_innermost_binder() {
    let env = TyCons(Bool, TyCons(Nat, EmptyEnv));
    assert_eq!(Var(I0).type_of(&env), Ok(Ty::Bool));
    assert_eq!(Var(ISucc(I0)).type_of(&env), Ok(Ty::Nat));
    assert_eq!(Var(ISucc(ISucc(I0))).type_of(&env), Err(TypeError::UnboundVariable));
    assert_eq!(Var(I0).type_of(&EmptyEnv), Err(TypeError::UnboundVariable));
}

#[test]
fn functions_and_applications() {
    assert_eq!(Lam(Nat, Var(I0)).type_of(&EmptyEnv), Ok(arrow(Ty::Nat, Ty::Nat)));
    assert_eq!(
        Lam(Bool, Lam(Nat, Var(ISucc(I0)))).type_of(&EmptyEnv),
        Ok(arrow(Ty::Bool, arrow(Ty::Nat, Ty::Bool)))
    );
    assert_eq!(App(Lam(Nat, IsZero(Var(I0))), Zero).type_of(&EmptyEnv), Ok(Ty::Bool));
    assert_eq!(
        App(Lam(Arrow(Bool, Bool), Var(I0)), Lam(Bool, Var(I0))).type_of(&EmptyEnv),
        Ok(arrow(Ty::Bool, Ty::Bool))
    );
}

#[test]
fn let_types_its_body_under_the_type_of_its_value() {
    assert_eq!(Let(Zero, IsZero(Var(I0))).type_of(&EmptyEnv), Ok(Ty::Bool));
    assert_eq!(Let(True, IsZero(Var(I0))).type_of(&EmptyEnv), Err(TypeError::NotANumber));
    assert_eq!(Let(Var(I0), True).type_of(&EmptyEnv), Err(TypeError::UnboundVariable));
}

#[test]
fn every_type_error() {
    assert_eq!(Var(I0).type_of(&EmptyEnv), Err(TypeError::UnboundVariable));
    assert_eq!(Succ(True).type_of(&EmptyEnv), Err(TypeError::NotANumber));
    assert_eq!(Pred(False).type_of(&EmptyEnv), Err(TypeError::NotANumber));
    assert_eq!(IsZero(Lam(Nat, Var(I0))).type_of(&EmptyEnv), Err(TypeError::NotANumber));
    assert_eq!(If(Zero, True, False).type_of(&EmptyEnv), Err(TypeError::NotABoolean));
    assert_eq!(App(True, True).type_of(&EmptyEnv), Err(TypeError::NotAFunction));
    assert_eq!(App(Lam(Bool, Var(I0)), Zero).type_of(&EmptyEnv), Err(TypeError::Mismatch));
    assert_eq!(If(True, Zero, False).type_of(&EmptyEnv), Err(TypeError::Mismatch));
    assert_eq!(Fix(Lam(Nat, Var(I0))).type_of(&EmptyEnv), Err(TypeError::NoRule));
}

#[test]
fn the_first_failure_is_reported() {
    assert_eq!(App(Succ(True), Var(I0)).type_of(&EmptyEnv), Err(TypeError::NotANumber));
    assert_eq!(App(True, Var(I0)).type_of(&EmptyEnv), Err(TypeError::NotAFunction));
    assert_eq!(
        App(Lam(Nat, Var(I0)), Var(I0)).type_of(&EmptyEnv),
        Err(TypeError::UnboundVariable)
    );
    assert_eq!(If(True, Var(I0), Succ(True)).type_of(&EmptyEnv), Err(TypeError::UnboundVariable));
    assert_eq!(If(Zero, Var(I0), Succ(True)).type_of(&EmptyEnv), Err(TypeError::NotABoolean));
    assert_eq!(Succ(Fix(Var(I0))).type_of(&EmptyEnv), Err(TypeError::NoRule));
}

#[test]
fn a_term_with_fix_does_not_typecheck() {
    assert!(!type_checks(&Fix(Lam(Arrow(Nat, Nat), Var(I0)))));
    assert!(!type_checks(&App(Fix(Lam(Arrow(Nat, Nat), Var(I0))), Zero)));
    assert!(type_checks(&Lam(Arrow(Nat, Nat), Var(I0))));
}

#[test]
fn check_hands_the_environment_back() {
    let term = Tm::Lam(Ty::Bool, Box::new(Tm::Var(stlcrts::tree::Ix::S(Box::new(stlcrts::tree::Ix::Z)))));
    let mut env = vec![Ty::Nat];
    assert_eq!(check(&term, &mut env), Ok(arrow(Ty::Bool, Ty::Nat)));
    assert_eq!(env, vec![Ty::Nat]);
    let bad = Tm::Lam(Ty::Bool, Box::new(Tm::Succ(Box::new(Tm::True))));
    assert_eq!(check(&bad, &mut env), Err(TypeError::NotANumber));
    assert_eq!(env, vec![Ty::Nat]);
}

#[test]
fn evaluation_keeps_the_type() {
    let term = Let(
        Lam(Nat, If(IsZero(Var(I0)), Succ(Zero), Pred(Var(I0)))),
        App(Var(I0), Succ(Succ(Zero))),
    );
    let ty = term.type_of(&EmptyEnv);
    assert_eq!(ty, Ok(Ty::Nat));
    let value = eval(&term, 50).unwrap();
    assert_eq!(value, Tm::Succ(Box::new(Tm::Zero)));
    assert_eq!(value.type_of(&EmptyEnv), ty);

    let function = App(Lam(Bool, Lam(Nat, Var(ISucc(I0)))), True);
    let ty = function.type_of(&EmptyEnv);
    assert_eq!(ty, Ok(arrow(Ty::Nat, Ty::Bool)));
    let value = eval(&function, 50).unwrap();
    assert_eq!(value, Tm::Lam(Ty::Nat, Box::new(Tm::True)));
    assert_eq!(value.type_of(&EmptyEnv), ty);
}

#[test]
fn a_vector_of_types_is_an_environment() {
    let env = vec![Ty::Nat, Ty::Bool];
    assert_eq!(Var(I0).type_of(&env), Ok(Ty::Bool));
    assert_eq!(Var(ISucc(I0)).type_of(&env), Ok(Ty::Nat));
    assert_eq!(stlcrts::type_checks(&stlcrts::True), true);
}
