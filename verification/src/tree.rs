//! Run-time trees: de Bruijn indices, simple types and terms.
//!
//! These are the values every operation of the crate works on. They are
//! plain immutable trees; each node owns its children. Indices are kept in
//! unary form, so no operation on them can overflow.

use vstd::prelude::*;
use vstd::std_specs::cmp::PartialEqSpecImpl;

verus! {

/// A de Bruijn index: the number of binders between a variable and the one
/// that introduces it.
#[derive(Debug)]
pub enum Ix {
    /// The nearest enclosing binder.
    Z,
    /// One binder further out.
    S(Box<Ix>),
}

/// A simple type.
#[derive(Debug)]
pub enum Ty {
    Bool,
    Nat,
    /// The type of functions from the first type to the second.
    Arrow(Box<Ty>, Box<Ty>),
}

/// A term of the calculus.
#[derive(Debug)]
pub enum Tm {
    True,
    False,
    Zero,
    Succ(Box<Tm>),
    Pred(Box<Tm>),
    IsZero(Box<Tm>),
    /// A reference to the binder at the given distance.
    Var(Ix),
    /// A function; the body lives under one more binder.
    Lam(Ty, Box<Tm>),
    App(Box<Tm>, Box<Tm>),
    If(Box<Tm>, Box<Tm>, Box<Tm>),
    /// A local definition; the second term lives under one more binder.
    Let(Box<Tm>, Box<Tm>),
    Fix(Box<Tm>),
}

impl Ix {
    /// The number this index stands for.
    pub open spec fn depth(self) -> nat
        decreases self,
    {
        match self {
            Ix::Z => 0,
            Ix::S(i) => 1 + i.depth(),
        }
    }

    /// The index that stands for `n`.
    pub open spec fn of(n: nat) -> Ix
        decreases n,
    {
        if n == 0 {
            Ix::Z
        } else {
            Ix::S(Box::new(Ix::of((n - 1) as nat)))
        }
    }

    /// `of` is a right inverse of `depth`.
    pub proof fn lemma_depth_of(n: nat)
        ensures
            Ix::of(n).depth() == n,
        decreases n,
    {
        if n > 0 {
            Ix::lemma_depth_of((n - 1) as nat);
        }
    }

    /// `of` is a left inverse of `depth`: an index is determined by its
    /// number.
    pub proof fn lemma_of_depth(self)
        ensures
            Ix::of(self.depth()) == self,
        decreases self,
    {
        match self {
            Ix::Z => {},
            Ix::S(i) => {
                i.lemma_of_depth();
            },
        }
    }

    /// Two indices with the same number are the same index.
    pub proof fn lemma_depth_injective(self, other: Ix)
        requires
            self.depth() == other.depth(),
        ensures
            self == other,
    {
        self.lemma_of_depth();
        other.lemma_of_depth();
    }
}

impl View for Ix {
    type V = Ix;

    open spec fn view(&self) -> Ix {
        *self
    }
}

impl Clone for Ix {
    fn clone(&self) -> (r: Self)
        ensures
            r == *self,
        decreases *self,
    {
        match self {
            Ix::Z => Ix::Z,
            Ix::S(i) => Ix::S(Box::new((&**i).clone())),
        }
    }
}

impl PartialEqSpecImpl for Ix {
    open spec fn obeys_eq_spec() -> bool {
        true
    }

    open spec fn eq_spec(&self, other: &Ix) -> bool {
        *self == *other
    }
}

impl PartialEq for Ix {
    fn eq(&self, other: &Ix) -> (r: bool)
        decreases *self,
    {
        match (self, other) {
            (Ix::Z, Ix::Z) => true,
            (Ix::S(a), Ix::S(b)) => (&**a).eq(&**b),
            _ => false,
        }
    }
}

impl Eq for Ix {

}

impl View for Ty {
    type V = Ty;

    open spec fn view(&self) -> Ty {
        *self
    }
}

impl Clone for Ty {
    fn clone(&self) -> (r: Self)
        ensures
            r == *self,
        decreases *self,
    {
        match self {
            Ty::Bool => Ty::Bool,
            Ty::Nat => Ty::Nat,
            Ty::Arrow(a, b) => Ty::Arrow(Box::new((&**a).clone()), Box::new((&**b).clone())),
        }
    }
}

impl PartialEqSpecImpl for Ty {
    open spec fn obeys_eq_spec() -> bool {
        true
    }

    open spec fn eq_spec(&self, other: &Ty) -> bool {
        *self == *other
    }
}

impl PartialEq for Ty {
    fn eq(&self, other: &Ty) -> (r: bool)
        decreases *self,
    {
        match (self, other) {
            (Ty::Bool, Ty::Bool) => true,
            (Ty::Nat, Ty::Nat) => true,
            (Ty::Arrow(a1, b1), Ty::Arrow(a2, b2)) => (&**a1).eq(&**a2) && (&**b1).eq(&**b2),
            _ => false,
        }
    }
}

impl Eq for Ty {

}

impl Tm {
    /// The numeral for `n`: `n` applications of `Succ` to `Zero`.
    pub open spec fn numeral(n: nat) -> Tm
        decreases n,
    {
        if n == 0 {
            Tm::Zero
        } else {
            Tm::Succ(Box::new(Tm::numeral((n - 1) as nat)))
        }
    }

    /// Whether the term is a numeral: a chain of `Succ` that ends in `Zero`.
    pub open spec fn spec_is_numeral(&self) -> bool
        decreases self,
    {
        match self {
            Tm::Zero => true,
            Tm::Succ(t) => t.spec_is_numeral(),
            _ => false,
        }
    }

    /// Whether the term is a value: a boolean, `Zero`, `Succ` of a value, or
    /// a function. The body of a function is not looked at.
    pub open spec fn spec_is_value(&self) -> bool
        decreases self,
    {
        match self {
            Tm::True | Tm::False | Tm::Zero => true,
            Tm::Succ(t) => t.spec_is_value(),
            Tm::Lam(_, _) => true,
            _ => false,
        }
    }

    /// Whether every variable of the term resolves to one of its own binders
    /// or to one of `n` binders around it.
    pub open spec fn closed_at(self, n: nat) -> bool
        decreases self,
    {
        match self {
            Tm::True | Tm::False | Tm::Zero => true,
            Tm::Succ(t) | Tm::Pred(t) | Tm::IsZero(t) | Tm::Fix(t) => t.closed_at(n),
            Tm::Var(i) => i.depth() < n,
            Tm::Lam(_, b) => b.closed_at(n + 1),
            Tm::App(f, a) => f.closed_at(n) && a.closed_at(n),
            Tm::If(c, t, e) => c.closed_at(n) && t.closed_at(n) && e.closed_at(n),
            Tm::Let(v, b) => v.closed_at(n) && b.closed_at(n + 1),
        }
    }

    /// Whether the term has no free variable at all.
    pub open spec fn closed(self) -> bool {
        self.closed_at(0)
    }

    /// Whether the variable that is `k` binders outside the term occurs in
    /// it.
    pub open spec fn mentions(self, k: nat) -> bool
        decreases self,
    {
        match self {
            Tm::True | Tm::False | Tm::Zero => false,
            Tm::Succ(t) | Tm::Pred(t) | Tm::IsZero(t) | Tm::Fix(t) => t.mentions(k),
            Tm::Var(i) => i.depth() == k,
            Tm::Lam(_, b) => b.mentions(k + 1),
            Tm::App(f, a) => f.mentions(k) || a.mentions(k),
            Tm::If(c, t, e) => c.mentions(k) || t.mentions(k) || e.mentions(k),
            Tm::Let(v, b) => v.mentions(k) || b.mentions(k + 1),
        }
    }

    /// A term closed under `n` binders mentions no variable at or beyond
    /// `n`.
    pub proof fn lemma_closed_mentions(self, n: nat, k: nat)
        requires
            self.closed_at(n),
            k >= n,
        ensures
            !self.mentions(k),
        decreases self,
    {
        match self {
            Tm::True | Tm::False | Tm::Zero | Tm::Var(_) => {},
            Tm::Succ(t) | Tm::Pred(t) | Tm::IsZero(t) | Tm::Fix(t) => {
                t.lemma_closed_mentions(n, k);
            },
            Tm::Lam(_, b) => {
                b.lemma_closed_mentions(n + 1, k + 1);
            },
            Tm::App(f, a) => {
                f.lemma_closed_mentions(n, k);
                a.lemma_closed_mentions(n, k);
            },
            Tm::If(c, t, e) => {
                c.lemma_closed_mentions(n, k);
                t.lemma_closed_mentions(n, k);
                e.lemma_closed_mentions(n, k);
            },
            Tm::Let(v, b) => {
                v.lemma_closed_mentions(n, k);
                b.lemma_closed_mentions(n + 1, k + 1);
            },
        }
    }

    /// A term closed under `n` binders is closed under more.
    pub proof fn lemma_closed_at_more(self, n: nat, more: nat)
        requires
            self.closed_at(n),
            n <= more,
        ensures
            self.closed_at(more),
        decreases self,
    {
        match self {
            Tm::True | Tm::False | Tm::Zero | Tm::Var(_) => {},
            Tm::Succ(t) | Tm::Pred(t) | Tm::IsZero(t) | Tm::Fix(t) => {
                t.lemma_closed_at_more(n, more);
            },
            Tm::Lam(_, b) => {
                b.lemma_closed_at_more(n + 1, more + 1);
            },
            Tm::App(f, a) => {
                f.lemma_closed_at_more(n, more);
                a.lemma_closed_at_more(n, more);
            },
            Tm::If(c, t, e) => {
                c.lemma_closed_at_more(n, more);
                t.lemma_closed_at_more(n, more);
                e.lemma_closed_at_more(n, more);
            },
            Tm::Let(v, b) => {
                v.lemma_closed_at_more(n, more);
                b.lemma_closed_at_more(n + 1, more + 1);
            },
        }
    }

    /// A numeral is a value, and it is closed.
    pub proof fn lemma_numeral_is_value(self)
        requires
            self.spec_is_numeral(),
        ensures
            self.spec_is_value(),
            self.closed(),
        decreases self,
    {
        match self {
            Tm::Succ(t) => {
                t.lemma_numeral_is_value();
            },
            _ => {},
        }
    }

    /// `numeral(n)` is a numeral.
    pub proof fn lemma_numeral(n: nat)
        ensures
            Tm::numeral(n).spec_is_numeral(),
        decreases n,
    {
        if n > 0 {
            Tm::lemma_numeral((n - 1) as nat);
        }
    }

    /// Whether the term is a numeral.
    #[verifier::when_used_as_spec(spec_is_numeral)]
    pub fn is_numeral(&self) -> (r: bool)
        ensures
            r == self.spec_is_numeral(),
        decreases *self,
    {
        match self {
            Tm::Zero => true,
            Tm::Succ(t) => t.is_numeral(),
            _ => false,
        }
    }

    /// Whether the term is a value.
    #[verifier::when_used_as_spec(spec_is_value)]
    pub fn is_value(&self) -> (r: bool)
        ensures
            r == self.spec_is_value(),
        decreases *self,
    {
        match self {
            Tm::True | Tm::False | Tm::Zero => true,
            Tm::Succ(t) => t.is_value(),
            Tm::Lam(_, _) => true,
            _ => false,
        }
    }
}

impl View for Tm {
    type V = Tm;

    open spec fn view(&self) -> Tm {
        *self
    }
}

impl Clone for Tm {
    fn clone(&self) -> (r: Self)
        ensures
            r == *self,
        decreases *self,
    {
        match self {
            Tm::True => Tm::True,
            Tm::False => Tm::False,
            Tm::Zero => Tm::Zero,
            Tm::Succ(t) => Tm::Succ(Box::new((&**t).clone())),
            Tm::Pred(t) => Tm::Pred(Box::new((&**t).clone())),
            Tm::IsZero(t) => Tm::IsZero(Box::new((&**t).clone())),
            Tm::Var(i) => Tm::Var(i.clone()),
            Tm::Lam(ty, b) => Tm::Lam(ty.clone(), Box::new((&**b).clone())),
            Tm::App(f, a) => Tm::App(Box::new((&**f).clone()), Box::new((&**a).clone())),
            Tm::If(c, t, e) => Tm::If(
                Box::new((&**c).clone()),
                Box::new((&**t).clone()),
                Box::new((&**e).clone()),
            ),
            Tm::Let(v, b) => Tm::Let(Box::new((&**v).clone()), Box::new((&**b).clone())),
            Tm::Fix(t) => Tm::Fix(Box::new((&**t).clone())),
        }
    }
}

impl PartialEqSpecImpl for Tm {
    open spec fn obeys_eq_spec() -> bool {
        true
    }

    open spec fn eq_spec(&self, other: &Tm) -> bool {
        *self == *other
    }
}

impl PartialEq for Tm {
    fn eq(&self, other: &Tm) -> (r: bool)
        decreases *self,
    {
        match (self, other) {
            (Tm::True, Tm::True) => true,
            (Tm::False, Tm::False) => true,
            (Tm::Zero, Tm::Zero) => true,
            (Tm::Succ(a), Tm::Succ(b)) => (&**a).eq(&**b),
            (Tm::Pred(a), Tm::Pred(b)) => (&**a).eq(&**b),
            (Tm::IsZero(a), Tm::IsZero(b)) => (&**a).eq(&**b),
            (Tm::Var(i), Tm::Var(j)) => i.eq(j),
            (Tm::Lam(ty1, b1), Tm::Lam(ty2, b2)) => ty1.eq(ty2) && (&**b1).eq(&**b2),
            (Tm::App(f1, a1), Tm::App(f2, a2)) => (&**f1).eq(&**f2) && (&**a1).eq(&**a2),
            (Tm::If(c1, t1, e1), Tm::If(c2, t2, e2)) => (&**c1).eq(&**c2) && (&**t1).eq(&**t2)
                && (&**e1).eq(&**e2),
            (Tm::Let(v1, b1), Tm::Let(v2, b2)) => (&**v1).eq(&**v2) && (&**b1).eq(&**b2),
            (Tm::Fix(a), Tm::Fix(b)) => (&**a).eq(&**b),
            _ => false,
        }
    }
}

impl Eq for Tm {

}

} // verus!
