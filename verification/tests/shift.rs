use stlcrts::shift::{
    reduce, shift, shift_down, shift_up, subst, Amount, ShiftBy1, ShiftByNeg1, Subst,
};
use stlcrts::term::{App, Bool, False, Fix, If, Lam, Let, Nat, Succ, Term, True, Var, I0, ISucc};
use stlcrts::tree::{Ix, Tm};

fn ix(n: usize) -> Ix {
    let mut i = Ix::Z;
    for _ in 0..n {
        i = Ix::S(Box::new(i));
    }
    i
}

fn v(n: usize) -> Tm {
    Tm::Var(ix(n))
}

#[test]
fn shifting_up_moves_the_variables_from_the_cutoff_on() {
    assert_eq!(shift_up(&v(0), &ix(0)), v(1));
    assert_eq!(shift_up(&v(2), &ix(1)), v(3));
    assert_eq!(shift_up(&v(1), &ix(1)), v(2));
    assert_eq!(shift_up(&v(0), &ix(1)), v(0));
    assert_eq!(shift_up(&Tm::True, &ix(0)), Tm::True);
}

#[test]
fn shifting_counts_the_binders_it_passes() {
    let term = Lam(Nat, App(Var(I0), App(Var(ISucc(I0)), Var(ISucc(ISucc(I0))))));
    assert_eq!(
        term.shift_by1(),
        Lam(Nat, App(Var(I0), App(Var(ISucc(ISucc(I0))), Var(ISucc(ISucc(ISucc(I0)))))))
            .to_tm()
    );
    let term = Let(Var(I0), App(Var(I0), Var(ISucc(I0))));
    assert_eq!(
        term.shift_by1(),
        Let(Var(ISucc(I0)), App(Var(I0), Var(ISucc(ISucc(I0))))).to_tm()
    );
    let term = If(Var(I0), Succ(Var(I0)), Fix(Var(I0)));
    assert_eq!(
        term.shift_by1(),
        If(Var(ISucc(I0)), Succ(Var(ISucc(I0))), Fix(Var(ISucc(I0)))).to_tm()
    );
}

#[test]
fn shifting_down_moves_the_variables_beyond_the_cutoff() {
    assert_eq!(shift_down(&v(1), &ix(0)), Some(v(0)));
    assert_eq!(shift_down(&v(3), &ix(1)), Some(v(2)));
    assert_eq!(shift_down(&v(0), &ix(1)), Some(v(0)));
    assert_eq!(shift_down(&v(0), &ix(0)), None);
    assert_eq!(shift_down(&v(1), &ix(1)), None);
    assert_eq!(Var(I0).shift_by_neg1(), None);
    assert_eq!(Lam(Bool, Var(I0)).shift_by_neg1(), Some(Lam(Bool, Var(I0)).to_tm()));
    assert_eq!(Lam(Bool, Var(ISucc(I0))).shift_by_neg1(), None);
    assert_eq!(
        Lam(Bool, Var(ISucc(ISucc(I0)))).shift_by_neg1(),
        Some(Lam(Bool, Var(ISucc(I0))).to_tm())
    );
}

#[test]
fn shift_takes_both_amounts() {
    assert_eq!(shift(&v(0), Amount::PlusOne, &ix(0)), Some(v(1)));
    assert_eq!(shift(&v(1), Amount::MinusOne, &ix(0)), Some(v(0)));
    assert_eq!(shift(&v(0), Amount::MinusOne, &ix(0)), None);
}

#[test]
fn shifting_up_and_down_again_gives_the_term_back() {
    let terms = vec![
        v(0),
        v(3),
        Lam(Nat, App(Var(I0), Var(ISucc(I0)))).to_tm(),
        Let(Var(I0), If(Var(I0), Var(ISucc(I0)), True)).to_tm(),
        Fix(Lam(Nat, Succ(Var(ISucc(ISucc(I0)))))).to_tm(),
    ];
    for t in terms {
        let up = t.shift_by1();
        assert_eq!(up.shift_by_neg1(), Some(t));
    }
}

#[test]
fn substitution_replaces_one_variable_and_leaves_the_others() {
    assert_eq!(subst(&v(0), &ix(0), &Tm::True), Tm::True);
    assert_eq!(subst(&v(1), &ix(0), &Tm::True), v(1));
    assert_eq!(subst(&v(0), &ix(1), &Tm::True), v(0));
    assert_eq!(subst(&v(2), &ix(2), &Tm::False), Tm::False);
    assert_eq!(Var(ISucc(I0)).subst(&I0, &True), v(1));
    assert_eq!(
        App(Var(I0), Var(ISucc(I0))).subst(&I0, &False),
        App(False, Var(ISucc(I0))).to_tm()
    );
}

#[test]
fn substitution_counts_the_binders_it_passes() {
    assert_eq!(
        Lam(Nat, App(Var(I0), Var(ISucc(I0)))).subst(&I0, &True),
        Lam(Nat, App(Var(I0), True)).to_tm()
    );
    assert_eq!(
        Let(Var(I0), App(Var(I0), Var(ISucc(I0)))).subst(&I0, &True),
        Let(True, App(Var(I0), True)).to_tm()
    );
    assert_eq!(
        Lam(Nat, Lam(Nat, Var(ISucc(ISucc(I0))))).subst(&I0, &False),
        Lam(Nat, Lam(Nat, False)).to_tm()
    );
}

#[test]
fn substitution_puts_the_replacement_in_as_it_is() {
    assert_eq!(
        Lam(Nat, Var(ISucc(I0))).subst(&I0, &Var(I0)),
        Lam(Nat, Var(I0)).to_tm()
    );
}

#[test]
fn substitution_changes_nothing_where_the_variable_is_absent() {
    let term = Lam(Nat, App(Var(I0), Var(ISucc(ISucc(I0))))).to_tm();
    assert_eq!(term.subst(&I0, &True), term);
}

#[test]
fn reduce_removes_a_binder() {
    assert_eq!(reduce(&v(0), &Tm::True), Some(Tm::True));
    assert_eq!(reduce(&v(1), &Tm::True), Some(v(0)));
    assert_eq!(
        reduce(&If(Var(I0), Var(ISucc(I0)), Var(ISucc(ISucc(I0)))).to_tm(), &Tm::False),
        Some(If(False, Var(I0), Var(ISucc(I0))).to_tm())
    );
    assert_eq!(
        reduce(&Lam(Nat, Var(ISucc(I0))).to_tm(), &Lam(Bool, Var(I0)).to_tm()),
        Some(Lam(Nat, Lam(Bool, Var(I0))).to_tm())
    );
}
