//! Shifting and substitution on de Bruijn terms.
//!
//! `shift` renumbers the free variables of a term when it moves across a
//! binder; `subst` replaces the occurrences of one variable. Substitution
//! never renumbers: a caller that removes a binder shifts the replacement
//! up, substitutes, and shifts the result down again (`reduce`).

use vstd::prelude::*;
use crate::term::{Index, Term};
use crate::tree::{Ix, Tm};

verus! {

/// The two amounts a term is ever shifted by.
#[derive(Debug, Clone, Copy, PartialEq, Eq)]
pub enum Amount {
    PlusOne,
    MinusOne,
}

/// The index `i` after one binder was added at distance `c`: indices at or
/// beyond `c` move out by one.
pub open spec fn index_up(i: Ix, c: nat) -> Ix {
    if i.depth() >= c {
        Ix::S(Box::new(i))
    } else {
        i
    }
}

/// The index `i` after the binder at distance `c` was removed: indices
/// beyond `c` move in by one, and `c` itself has nothing left to refer to.
pub open spec fn index_down(i: Ix, c: nat) -> Option<Ix> {
    if i.depth() < c {
        Some(i)
    } else if i.depth() == c {
        None
    } else {
        match i {
            Ix::S(k) => Some(*k),
            Ix::Z => None,
        }
    }
}

/// `t` with one added to every variable at or beyond `c`, where `c` counts
/// the binders of `t` already passed.
pub open spec fn shifted_up(t: Tm, c: nat) -> Tm
    decreases t,
{
    match t {
        Tm::True => Tm::True,
        Tm::False => Tm::False,
        Tm::Zero => Tm::Zero,
        Tm::Succ(a) => Tm::Succ(Box::new(shifted_up(*a, c))),
        Tm::Pred(a) => Tm::Pred(Box::new(shifted_up(*a, c))),
        Tm::IsZero(a) => Tm::IsZero(Box::new(shifted_up(*a, c))),
        Tm::Var(i) => Tm::Var(index_up(i, c)),
        Tm::Lam(ty, b) => Tm::Lam(ty, Box::new(shifted_up(*b, c + 1))),
        Tm::App(f, a) => Tm::App(Box::new(shifted_up(*f, c)), Box::new(shifted_up(*a, c))),
        Tm::If(x, y, z) => Tm::If(
            Box::new(shifted_up(*x, c)),
            Box::new(shifted_up(*y, c)),
            Box::new(shifted_up(*z, c)),
        ),
        Tm::Let(v, b) => Tm::Let(Box::new(shifted_up(*v, c)), Box::new(shifted_up(*b, c + 1))),
        Tm::Fix(a) => Tm::Fix(Box::new(shifted_up(*a, c))),
    }
}

/// `t` with one taken from every variable beyond `c`; `None` where `t`
/// refers to the variable `c` itself.
pub open spec fn shifted_down(t: Tm, c: nat) -> Option<Tm>
    decreases t,
{
    match t {
        Tm::True => Some(Tm::True),
        Tm::False => Some(Tm::False),
        Tm::Zero => Some(Tm::Zero),
        Tm::Succ(a) => match shifted_down(*a, c) {
            Some(a2) => Some(Tm::Succ(Box::new(a2))),
            None => None,
        },
        Tm::Pred(a) => match shifted_down(*a, c) {
            Some(a2) => Some(Tm::Pred(Box::new(a2))),
            None => None,
        },
        Tm::IsZero(a) => match shifted_down(*a, c) {
            Some(a2) => Some(Tm::IsZero(Box::new(a2))),
            None => None,
        },
        Tm::Var(i) => match index_down(i, c) {
            Some(k) => Some(Tm::Var(k)),
            None => None,
        },
        Tm::Lam(ty, b) => match shifted_down(*b, c + 1) {
            Some(b2) => Some(Tm::Lam(ty, Box::new(b2))),
            None => None,
        },
        Tm::App(f, a) => match (shifted_down(*f, c), shifted_down(*a, c)) {
            (Some(f2), Some(a2)) => Some(Tm::App(Box::new(f2), Box::new(a2))),
            _ => None,
        },
        Tm::If(x, y, z) => match (shifted_down(*x, c), shifted_down(*y, c), shifted_down(*z, c)) {
            (Some(x2), Some(y2), Some(z2)) => Some(
                Tm::If(Box::new(x2), Box::new(y2), Box::new(z2)),
            ),
            _ => None,
        },
        Tm::Let(v, b) => match (shifted_down(*v, c), shifted_down(*b, c + 1)) {
            (Some(v2), Some(b2)) => Some(Tm::Let(Box::new(v2), Box::new(b2))),
            _ => None,
        },
        Tm::Fix(a) => match shifted_down(*a, c) {
            Some(a2) => Some(Tm::Fix(Box::new(a2))),
            None => None,
        },
    }
}

/// `t` shifted by `amount` from `c` on.
pub open spec fn shifted(t: Tm, amount: Amount, c: nat) -> Option<Tm> {
    match amount {
        Amount::PlusOne => Some(shifted_up(t, c)),
        Amount::MinusOne => shifted_down(t, c),
    }
}

/// `t` with `s` in place of every occurrence of the variable `j`. Under a
/// binder the variable is `j + 1`; `s` is put in as it is.
pub open spec fn substituted(t: Tm, j: nat, s: Tm) -> Tm
    decreases t,
{
    match t {
        Tm::True => Tm::True,
        Tm::False => Tm::False,
        Tm::Zero => Tm::Zero,
        Tm::Succ(a) => Tm::Succ(Box::new(substituted(*a, j, s))),
        Tm::Pred(a) => Tm::Pred(Box::new(substituted(*a, j, s))),
        Tm::IsZero(a) => Tm::IsZero(Box::new(substituted(*a, j, s))),
        Tm::Var(i) => if i.depth() == j {
            s
        } else {
            Tm::Var(i)
        },
        Tm::Lam(ty, b) => Tm::Lam(ty, Box::new(substituted(*b, j + 1, s))),
        Tm::App(f, a) => Tm::App(Box::new(substituted(*f, j, s)), Box::new(substituted(*a, j, s))),
        Tm::If(x, y, z) => Tm::If(
            Box::new(substituted(*x, j, s)),
            Box::new(substituted(*y, j, s)),
            Box::new(substituted(*z, j, s)),
        ),
        Tm::Let(v, b) => Tm::Let(
            Box::new(substituted(*v, j, s)),
            Box::new(substituted(*b, j + 1, s)),
        ),
        Tm::Fix(a) => Tm::Fix(Box::new(substituted(*a, j, s))),
    }
}

/// The body of a binder after the binder was removed and `v` put in for its
/// variable: `v` is shifted up, substituted for variable 0, and the result
/// is shifted down. `None` where the last step meets a variable that has
/// nothing left to refer to.
pub open spec fn reduced(body: Tm, v: Tm) -> Option<Tm> {
    shifted_down(substituted(body, 0, shifted_up(v, 0)), 0)
}

/// Shifting up from `c` and then down from `c` gives the term back.
pub proof fn lemma_shift_up_down(t: Tm, c: nat)
    ensures
        shifted_down(shifted_up(t, c), c) == Some(t),
    decreases t,
{
    match t {
        Tm::True | Tm::False | Tm::Zero | Tm::Var(_) => {},
        Tm::Succ(a) | Tm::Pred(a) | Tm::IsZero(a) | Tm::Fix(a) => {
            lemma_shift_up_down(*a, c);
        },
        Tm::Lam(_, b) => {
            lemma_shift_up_down(*b, c + 1);
        },
        Tm::App(f, a) => {
            lemma_shift_up_down(*f, c);
            lemma_shift_up_down(*a, c);
        },
        Tm::If(x, y, z) => {
            lemma_shift_up_down(*x, c);
            lemma_shift_up_down(*y, c);
            lemma_shift_up_down(*z, c);
        },
        Tm::Let(v, b) => {
            lemma_shift_up_down(*v, c);
            lemma_shift_up_down(*b, c + 1);
        },
    }
}

/// Shifting by one and then by minus one is the identity, on every term.
pub proof fn lemma_shift_round_trip(t: Tm)
    ensures
        shifted(shifted_up(t, 0), Amount::MinusOne, 0) == Some(t),
        shifted(t, Amount::PlusOne, 0) == Some(shifted_up(t, 0)),
{
    lemma_shift_up_down(t, 0);
}

/// A term can be shifted down from `c` exactly when it does not mention
/// `c`, and shifting the result up again gives the term back.
pub proof fn lemma_shift_down_up(t: Tm, c: nat)
    ensures
        shifted_down(t, c) is Some <==> !t.mentions(c),
        shifted_down(t, c) matches Some(d) ==> shifted_up(d, c) == t,
    decreases t,
{
    match t {
        Tm::True | Tm::False | Tm::Zero | Tm::Var(_) => {},
        Tm::Succ(a) | Tm::Pred(a) | Tm::IsZero(a) | Tm::Fix(a) => {
            lemma_shift_down_up(*a, c);
        },
        Tm::Lam(_, b) => {
            lemma_shift_down_up(*b, c + 1);
        },
        Tm::App(f, a) => {
            lemma_shift_down_up(*f, c);
            lemma_shift_down_up(*a, c);
        },
        Tm::If(x, y, z) => {
            lemma_shift_down_up(*x, c);
            lemma_shift_down_up(*y, c);
            lemma_shift_down_up(*z, c);
        },
        Tm::Let(v, b) => {
            lemma_shift_down_up(*v, c);
            lemma_shift_down_up(*b, c + 1);
        },
    }
}

/// A term closed under `c` binders has nothing to shift from `c` on.
pub proof fn lemma_shift_closed(t: Tm, c: nat)
    requires
        t.closed_at(c),
    ensures
        shifted_up(t, c) == t,
        shifted_down(t, c) == Some(t),
    decreases t,
{
    match t {
        Tm::True | Tm::False | Tm::Zero | Tm::Var(_) => {},
        Tm::Succ(a) | Tm::Pred(a) | Tm::IsZero(a) | Tm::Fix(a) => {
            lemma_shift_closed(*a, c);
        },
        Tm::Lam(_, b) => {
            lemma_shift_closed(*b, c + 1);
        },
        Tm::App(f, a) => {
            lemma_shift_closed(*f, c);
            lemma_shift_closed(*a, c);
        },
        Tm::If(x, y, z) => {
            lemma_shift_closed(*x, c);
            lemma_shift_closed(*y, c);
            lemma_shift_closed(*z, c);
        },
        Tm::Let(v, b) => {
            lemma_shift_closed(*v, c);
            lemma_shift_closed(*b, c + 1);
        },
    }
}

/// Substitution leaves every other variable alone: a variable `i` other
/// than `j` stays `i`.
pub proof fn lemma_subst_other_variable(i: Ix, j: nat, s: Tm)
    requires
        i.depth() != j,
    ensures
        substituted(Tm::Var(i), j, s) == Tm::Var(i),
{
}

/// Substitution is local: on a term that does not mention `j` it changes
/// nothing, whatever is substituted.
pub proof fn lemma_subst_absent(t: Tm, j: nat, s: Tm)
    requires
        !t.mentions(j),
    ensures
        substituted(t, j, s) == t,
    decreases t,
{
    match t {
        Tm::True | Tm::False | Tm::Zero | Tm::Var(_) => {},
        Tm::Succ(a) | Tm::Pred(a) | Tm::IsZero(a) | Tm::Fix(a) => {
            lemma_subst_absent(*a, j, s);
        },
        Tm::Lam(_, b) => {
            lemma_subst_absent(*b, j + 1, s);
        },
        Tm::App(f, a) => {
            lemma_subst_absent(*f, j, s);
            lemma_subst_absent(*a, j, s);
        },
        Tm::If(x, y, z) => {
            lemma_subst_absent(*x, j, s);
            lemma_subst_absent(*y, j, s);
            lemma_subst_absent(*z, j, s);
        },
        Tm::Let(v, b) => {
            lemma_subst_absent(*v, j, s);
            lemma_subst_absent(*b, j + 1, s);
        },
    }
}

/// After a closed term was substituted for `j`, the variable `j` is gone,
/// and no other variable came or went.
pub proof fn lemma_subst_removes(t: Tm, j: nat, s: Tm, k: nat)
    requires
        s.closed(),
    ensures
        substituted(t, j, s).mentions(k) <==> k != j && t.mentions(k),
    decreases t,
{
    match t {
        Tm::True | Tm::False | Tm::Zero => {},
        Tm::Var(i) => {
            if i.depth() == j {
                s.lemma_closed_mentions(0, k);
            }
        },
        Tm::Succ(a) | Tm::Pred(a) | Tm::IsZero(a) | Tm::Fix(a) => {
            lemma_subst_removes(*a, j, s, k);
        },
        Tm::Lam(_, b) => {
            lemma_subst_removes(*b, j + 1, s, k + 1);
        },
        Tm::App(f, a) => {
            lemma_subst_removes(*f, j, s, k);
            lemma_subst_removes(*a, j, s, k);
        },
        Tm::If(x, y, z) => {
            lemma_subst_removes(*x, j, s, k);
            lemma_subst_removes(*y, j, s, k);
            lemma_subst_removes(*z, j, s, k);
        },
        Tm::Let(v, b) => {
            lemma_subst_removes(*v, j, s, k);
            lemma_subst_removes(*b, j + 1, s, k + 1);
        },
    }
}

/// `index_up` on run-time indices.
pub fn shift_index_up(i: &Ix, c: &Ix) -> (r: Ix)
    ensures
        r == index_up(*i, c.depth()),
    decreases *c,
{
    match c {
        Ix::Z => Ix::S(Box::new(i.clone())),
        Ix::S(n) => match i {
            Ix::Z => Ix::Z,
            Ix::S(k) => Ix::S(Box::new(shift_index_up(k, n))),
        },
    }
}

/// `index_down` on run-time indices.
pub fn shift_index_down(i: &Ix, c: &Ix) -> (r: Option<Ix>)
    ensures
        r == index_down(*i, c.depth()),
    decreases *c,
{
    match c {
        Ix::Z => match i {
            Ix::Z => None,
            Ix::S(k) => Some((&**k).clone()),
        },
        Ix::S(n) => match i {
            Ix::Z => Some(Ix::Z),
            Ix::S(k) => match shift_index_down(k, n) {
                Some(k2) => Some(Ix::S(Box::new(k2))),
                None => None,
            },
        },
    }
}

/// Shifts every variable of `term` at or beyond `cutoff` up by one.
pub fn shift_up(term: &Tm, cutoff: &Ix) -> (r: Tm)
    ensures
        r == shifted_up(*term, cutoff.depth()),
    decreases *term,
{
    match term {
        Tm::True => Tm::True,
        Tm::False => Tm::False,
        Tm::Zero => Tm::Zero,
        Tm::Succ(a) => Tm::Succ(Box::new(shift_up(a, cutoff))),
        Tm::Pred(a) => Tm::Pred(Box::new(shift_up(a, cutoff))),
        Tm::IsZero(a) => Tm::IsZero(Box::new(shift_up(a, cutoff))),
        Tm::Var(i) => Tm::Var(shift_index_up(i, cutoff)),
        Tm::Lam(ty, b) => {
            let inner = Ix::S(Box::new(cutoff.clone()));
            Tm::Lam(ty.clone(), Box::new(shift_up(b, &inner)))
        },
        Tm::App(f, a) => Tm::App(Box::new(shift_up(f, cutoff)), Box::new(shift_up(a, cutoff))),
        Tm::If(x, y, z) => Tm::If(
            Box::new(shift_up(x, cutoff)),
            Box::new(shift_up(y, cutoff)),
            Box::new(shift_up(z, cutoff)),
        ),
        Tm::Let(v, b) => {
            let inner = Ix::S(Box::new(cutoff.clone()));
            Tm::Let(Box::new(shift_up(v, cutoff)), Box::new(shift_up(b, &inner)))
        },
        Tm::Fix(a) => Tm::Fix(Box::new(shift_up(a, cutoff))),
    }
}

/// Shifts every variable of `term` beyond `cutoff` down by one. `None`
/// where `term` refers to the variable `cutoff` itself.
pub fn shift_down(term: &Tm, cutoff: &Ix) -> (r: Option<Tm>)
    ensures
        r == shifted_down(*term, cutoff.depth()),
    decreases *term,
{
    match term {
        Tm::True => Some(Tm::True),
        Tm::False => Some(Tm::False),
        Tm::Zero => Some(Tm::Zero),
        Tm::Succ(a) => match shift_down(a, cutoff) {
            Some(a2) => Some(Tm::Succ(Box::new(a2))),
            None => None,
        },
        Tm::Pred(a) => match shift_down(a, cutoff) {
            Some(a2) => Some(Tm::Pred(Box::new(a2))),
            None => None,
        },
        Tm::IsZero(a) => match shift_down(a, cutoff) {
            Some(a2) => Some(Tm::IsZero(Box::new(a2))),
            None => None,
        },
        Tm::Var(i) => match shift_index_down(i, cutoff) {
            Some(k) => Some(Tm::Var(k)),
            None => None,
        },
        Tm::Lam(ty, b) => {
            let inner = Ix::S(Box::new(cutoff.clone()));
            match shift_down(b, &inner) {
                Some(b2) => Some(Tm::Lam(ty.clone(), Box::new(b2))),
                None => None,
            }
        },
        Tm::App(f, a) => match (shift_down(f, cutoff), shift_down(a, cutoff)) {
            (Some(f2), Some(a2)) => Some(Tm::App(Box::new(f2), Box::new(a2))),
            _ => None,
        },
        Tm::If(x, y, z) => match (
            shift_down(x, cutoff),
            shift_down(y, cutoff),
            shift_down(z, cutoff),
        ) {
            (Some(x2), Some(y2), Some(z2)) => Some(
                Tm::If(Box::new(x2), Box::new(y2), Box::new(z2)),
            ),
            _ => None,
        },
        Tm::Let(v, b) => {
            let inner = Ix::S(Box::new(cutoff.clone()));
            match (shift_down(v, cutoff), shift_down(b, &inner)) {
                (Some(v2), Some(b2)) => Some(Tm::Let(Box::new(v2), Box::new(b2))),
                _ => None,
            }
        },
        Tm::Fix(a) => match shift_down(a, cutoff) {
            Some(a2) => Some(Tm::Fix(Box::new(a2))),
            None => None,
        },
    }
}

/// Shifts `term` by `amount` from `cutoff` on. Shifting up always
/// succeeds; shifting down gives `None` where `term` refers to the variable
/// `cutoff` itself.
pub fn shift(term: &Tm, amount: Amount, cutoff: &Ix) -> (r: Option<Tm>)
    ensures
        r == shifted(*term, amount, cutoff.depth()),
        amount == Amount::PlusOne ==> r is Some,
        amount == Amount::MinusOne ==> (r is Some <==> !term.mentions(cutoff.depth())),
{
    proof {
        lemma_shift_down_up(*term, cutoff.depth());
    }
    match amount {
        Amount::PlusOne => Some(shift_up(term, cutoff)),
        Amount::MinusOne => shift_down(term, cutoff),
    }
}

/// Replaces every occurrence of the variable `j` in `term` by
/// `replacement`.
pub fn subst(term: &Tm, j: &Ix, replacement: &Tm) -> (r: Tm)
    ensures
        r == substituted(*term, j.depth(), *replacement),
    decreases *term,
{
    match term {
        Tm::True => Tm::True,
        Tm::False => Tm::False,
        Tm::Zero => Tm::Zero,
        Tm::Succ(a) => Tm::Succ(Box::new(subst(a, j, replacement))),
        Tm::Pred(a) => Tm::Pred(Box::new(subst(a, j, replacement))),
        Tm::IsZero(a) => Tm::IsZero(Box::new(subst(a, j, replacement))),
        Tm::Var(i) => {
            proof {
                if i.depth() == j.depth() {
                    i.lemma_depth_injective(*j);
                }
            }
            if i == j {
                replacement.clone()
            } else {
                Tm::Var(i.clone())
            }
        },
        Tm::Lam(ty, b) => {
            let inner = Ix::S(Box::new(j.clone()));
            Tm::Lam(ty.clone(), Box::new(subst(b, &inner, replacement)))
        },
        Tm::App(f, a) => Tm::App(
            Box::new(subst(f, j, replacement)),
            Box::new(subst(a, j, replacement)),
        ),
        Tm::If(x, y, z) => Tm::If(
            Box::new(subst(x, j, replacement)),
            Box::new(subst(y, j, replacement)),
            Box::new(subst(z, j, replacement)),
        ),
        Tm::Let(v, b) => {
            let inner = Ix::S(Box::new(j.clone()));
            Tm::Let(Box::new(subst(v, j, replacement)), Box::new(subst(b, &inner, replacement)))
        },
        Tm::Fix(a) => Tm::Fix(Box::new(subst(a, j, replacement))),
    }
}

/// Removes a binder: puts `value` in for the variable that the binder
/// around `body` introduced. `value` is shifted up by one, substituted for
/// variable 0, and the result is shifted down by one.
pub fn reduce(body: &Tm, value: &Tm) -> (r: Option<Tm>)
    ensures
        r == reduced(*body, *value),
{
    let zero = Ix::Z;
    let lifted = shift_up(value, &zero);
    let replaced = subst(body, &zero, &lifted);
    shift_down(&replaced, &zero)
}

/// A term that can move under one more binder.
pub trait ShiftBy1: Term {
    /// The term with every free variable moved out by one.
    fn shift_by1(&self) -> (r: Tm)
        ensures
            r == shifted_up(self@, 0),
    ;
}

impl<T: Term> ShiftBy1 for T {
    fn shift_by1(&self) -> (r: Tm) {
        let term = self.to_tm();
        shift_up(&term, &Ix::Z)
    }
}

/// A term that can move out from under a binder.
pub trait ShiftByNeg1: Term {
    /// The term with every free variable moved in by one; `None` where the
    /// term refers to the binder that is taken away, variable 0.
    fn shift_by_neg1(&self) -> (r: Option<Tm>)
        ensures
            r == shifted_down(self@, 0),
            r is Some <==> !self@.mentions(0),
    ;
}

impl<T: Term> ShiftByNeg1 for T {
    fn shift_by_neg1(&self) -> (r: Option<Tm>) {
        let term = self.to_tm();
        proof {
            lemma_shift_down_up(term, 0);
        }
        shift_down(&term, &Ix::Z)
    }
}

/// A term in which the variable `J` can be replaced by the term `S`.
pub trait Subst<J: Index, S: Term>: Term {
    /// The term with `replacement` in place of every occurrence of the
    /// variable `j`.
    fn subst(&self, j: &J, replacement: &S) -> (r: Tm)
        ensures
            r == substituted(self@, j@.depth(), replacement@),
    ;
}

impl<J: Index, S: Term, T: Term> Subst<J, S> for T {
    fn subst(&self, j: &J, replacement: &S) -> (r: Tm) {
        let term = self.to_tm();
        let index = j.to_ix();
        let with = replacement.to_tm();
        subst(&term, &index, &with)
    }
}

} // verus!
