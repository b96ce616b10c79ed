//! Term, type, index and environment formers with a static shape.
//!
//! Each former is a small struct, so a term can be written down in Rust
//! without boxing: `App(Lam(Bool, Var(I0)), True)`. The traits `Term`,
//! `Type`, `Index` and `Env` turn such a value into the run-time tree it
//! stands for, which is also its view. The run-time trees implement the
//! traits too and stand for themselves.

use vstd::prelude::*;
use crate::tree::{Ix, Tm, Ty};

verus! {

/// Something that stands for a de Bruijn index.
pub trait Index: View<V = Ix> {
    /// The index this value stands for.
    fn to_ix(&self) -> (r: Ix)
        ensures
            r == self@,
    ;
}

/// Something that stands for a simple type.
pub trait Type: View<V = Ty> {
    /// The type this value stands for.
    fn to_ty(&self) -> (r: Ty)
        ensures
            r == self@,
    ;
}

/// Something that stands for a term.
pub trait Term: View<V = Tm> {
    /// The term this value stands for.
    fn to_tm(&self) -> (r: Tm)
        ensures
            r == self@,
    ;
}

/// Something that stands for a typing environment. The view lists the types
/// of the enclosing binders from the outermost to the innermost, so the type
/// of variable 0 comes last.
pub trait Env: View<V = Seq<Ty>> {
    /// The environment this value stands for.
    fn to_vec(&self) -> (r: Vec<Ty>)
        ensures
            r@ == self@,
    ;
}

/// The index 0: the nearest binder.
#[derive(Debug)]
pub struct I0;

/// The index after `I`.
#[derive(Debug)]
pub struct ISucc<I: Index>(pub I);

/// The type of booleans.
#[derive(Debug)]
pub struct Bool;

/// The type of natural numbers.
#[derive(Debug)]
pub struct Nat;

/// The type of functions from `T` to `U`.
#[derive(Debug)]
pub struct Arrow<T: Type, U: Type>(pub T, pub U);

#[derive(Debug)]
pub struct True;

#[derive(Debug)]
pub struct False;

#[derive(Debug)]
pub struct Zero;

#[derive(Debug)]
pub struct Succ<T: Term>(pub T);

#[derive(Debug)]
pub struct Pred<T: Term>(pub T);

#[derive(Debug)]
pub struct IsZero<T: Term>(pub T);

/// A variable, named by the distance to its binder.
#[derive(Debug)]
pub struct Var<I: Index>(pub I);

/// A function with a parameter of type `Tp`. In the body, variable 0 is the
/// parameter.
#[derive(Debug)]
pub struct Lam<Tp: Type, T: Term>(pub Tp, pub T);

/// A conditional.
#[derive(Debug)]
pub struct If<Cond: Term, Then: Term, Else: Term>(pub Cond, pub Then, pub Else);

/// The application of a function to an argument.
#[derive(Debug)]
pub struct App<F: Term, A: Term>(pub F, pub A);

/// A local definition. It binds no name: in the body, variable 0 is the
/// defined value.
#[derive(Debug)]
pub struct Let<T: Term, Body: Term>(pub T, pub Body);

/// General recursion.
#[derive(Debug)]
pub struct Fix<T: Term>(pub T);

/// The environment of a term with no binder around it.
#[derive(Debug)]
pub struct EmptyEnv;

/// The environment `Tl` with one more binder, of type `Tp`, inside it.
#[derive(Debug)]
pub struct TyCons<Tp: Type, Tl: Env>(pub Tp, pub Tl);

impl View for I0 {
    type V = Ix;

    open spec fn view(&self) -> Ix {
        Ix::Z
    }
}

impl Index for I0 {
    fn to_ix(&self) -> (r: Ix) {
        Ix::Z
    }
}

impl<I: Index> View for ISucc<I> {
    type V = Ix;

    open spec fn view(&self) -> Ix {
        Ix::S(Box::new(self.0@))
    }
}

impl<I: Index> Index for ISucc<I> {
    fn to_ix(&self) -> (r: Ix) {
        Ix::S(Box::new(self.0.to_ix()))
    }
}

impl Index for Ix {
    fn to_ix(&self) -> (r: Ix) {
        self.clone()
    }
}

impl View for Bool {
    type V = Ty;

    open spec fn view(&self) -> Ty {
        Ty::Bool
    }
}

impl Type for Bool {
    fn to_ty(&self) -> (r: Ty) {
        Ty::Bool
    }
}

impl View for Nat {
    type V = Ty;

    open spec fn view(&self) -> Ty {
        Ty::Nat
    }
}

impl Type for Nat {
    fn to_ty(&self) -> (r: Ty) {
        Ty::Nat
    }
}

impl<T: Type, U: Type> View for Arrow<T, U> {
    type V = Ty;

    open spec fn view(&self) -> Ty {
        Ty::Arrow(Box::new(self.0@), Box::new(self.1@))
    }
}

impl<T: Type, U: Type> Type for Arrow<T, U> {
    fn to_ty(&self) -> (r: Ty) {
        Ty::Arrow(Box::new(self.0.to_ty()), Box::new(self.1.to_ty()))
    }
}

impl Type for Ty {
    fn to_ty(&self) -> (r: Ty) {
        self.clone()
    }
}

impl View for True {
    type V = Tm;

    open spec fn view(&self) -> Tm {
        Tm::True
    }
}

impl Term for True {
    fn to_tm(&self) -> (r: Tm) {
        Tm::True
    }
}

impl View for False {
    type V = Tm;

    open spec fn view(&self) -> Tm {
        Tm::False
    }
}

impl Term for False {
    fn to_tm(&self) -> (r: Tm) {
        Tm::False
    }
}

impl View for Zero {
    type V = Tm;

    open spec fn view(&self) -> Tm {
        Tm::Zero
    }
}

impl Term for Zero {
    fn to_tm(&self) -> (r: Tm) {
        Tm::Zero
    }
}

impl<T: Term> View for Succ<T> {
    type V = Tm;

    open spec fn view(&self) -> Tm {
        Tm::Succ(Box::new(self.0@))
    }
}

impl<T: Term> Term for Succ<T> {
    fn to_tm(&self) -> (r: Tm) {
        Tm::Succ(Box::new(self.0.to_tm()))
    }
}

impl<T: Term> View for Pred<T> {
    type V = Tm;

    open spec fn view(&self) -> Tm {
        Tm::Pred(Box::new(self.0@))
    }
}

impl<T: Term> Term for Pred<T> {
    fn to_tm(&self) -> (r: Tm) {
        Tm::Pred(Box::new(self.0.to_tm()))
    }
}

impl<T: Term> View for IsZero<T> {
    type V = Tm;

    open spec fn view(&self) -> Tm {
        Tm::IsZero(Box::new(self.0@))
    }
}

impl<T: Term> Term for IsZero<T> {
    fn to_tm(&self) -> (r: Tm) {
        Tm::IsZero(Box::new(self.0.to_tm()))
    }
}

impl<I: Index> View for Var<I> {
    type V = Tm;

    open spec fn view(&self) -> Tm {
        Tm::Var(self.0@)
    }
}

impl<I: Index> Term for Var<I> {
    fn to_tm(&self) -> (r: Tm) {
        Tm::Var(self.0.to_ix())
    }
}

impl<Tp: Type, T: Term> View for Lam<Tp, T> {
    type V = Tm;

    open spec fn view(&self) -> Tm {
        Tm::Lam(self.0@, Box::new(self.1@))
    }
}

impl<Tp: Type, T: Term> Term for Lam<Tp, T> {
    fn to_tm(&self) -> (r: Tm) {
        Tm::Lam(self.0.to_ty(), Box::new(self.1.to_tm()))
    }
}

impl<Cond: Term, Then: Term, Else: Term> View for If<Cond, Then, Else> {
    type V = Tm;

    open spec fn view(&self) -> Tm {
        Tm::If(Box::new(self.0@), Box::new(self.1@), Box::new(self.2@))
    }
}

impl<Cond: Term, Then: Term, Else: Term> Term for If<Cond, Then, Else> {
    fn to_tm(&self) -> (r: Tm) {
        Tm::If(Box::new(self.0.to_tm()), Box::new(self.1.to_tm()), Box::new(self.2.to_tm()))
    }
}

impl<F: Term, A: Term> View for App<F, A> {
    type V = Tm;

    open spec fn view(&self) -> Tm {
        Tm::App(Box::new(self.0@), Box::new(self.1@))
    }
}

impl<F: Term, A: Term> Term for App<F, A> {
    fn to_tm(&self) -> (r: Tm) {
        Tm::App(Box::new(self.0.to_tm()), Box::new(self.1.to_tm()))
    }
}

impl<T: Term, Body: Term> View for Let<T, Body> {
    type V = Tm;

    open spec fn view(&self) -> Tm {
        Tm::Let(Box::new(self.0@), Box::new(self.1@))
    }
}

impl<T: Term, Body: Term> Term for Let<T, Body> {
    fn to_tm(&self) -> (r: Tm) {
        Tm::Let(Box::new(self.0.to_tm()), Box::new(self.1.to_tm()))
    }
}

impl<T: Term> View for Fix<T> {
    type V = Tm;

    open spec fn view(&self) -> Tm {
        Tm::Fix(Box::new(self.0@))
    }
}

impl<T: Term> Term for Fix<T> {
    fn to_tm(&self) -> (r: Tm) {
        Tm::Fix(Box::new(self.0.to_tm()))
    }
}

impl Term for Tm {
    fn to_tm(&self) -> (r: Tm) {
        self.clone()
    }
}

impl View for EmptyEnv {
    type V = Seq<Ty>;

    open spec fn view(&self) -> Seq<Ty> {
        Seq::empty()
    }
}

impl Env for EmptyEnv {
    fn to_vec(&self) -> (r: Vec<Ty>) {
        Vec::new()
    }
}

impl Env for Vec<Ty> {
    fn to_vec(&self) -> (r: Vec<Ty>) {
        let mut copy: Vec<Ty> = Vec::new();
        let mut i: usize = 0;
        while i < self.len()
            invariant
                i <= self.len(),
                copy@ == self@.take(i as int),
            decreases self.len() - i,
        {
            copy.push(self[i].clone());
            assert(self@.take(i + 1) == self@.take(i as int).push(self@[i as int]));
            i += 1;
        }
        assert(self@.take(self.len() as int) == self@);
        copy
    }
}

impl<Tp: Type, Tl: Env> View for TyCons<Tp, Tl> {
    type V = Seq<Ty>;

    open spec fn view(&self) -> Seq<Ty> {
        self.1@.push(self.0@)
    }
}

impl<Tp: Type, Tl: Env> Env for TyCons<Tp, Tl> {
    fn to_vec(&self) -> (r: Vec<Ty>) {
        let mut outer = self.1.to_vec();
        outer.push(self.0.to_ty());
        outer
    }
}

} // verus!
