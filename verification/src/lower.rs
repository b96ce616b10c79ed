//! From names to indices, and from a source text to a term.
//!
//! Names are resolved against the stack of the names bound around them: a
//! name stands for the innermost binder of that name, and the index of a
//! variable is the number of binders between it and that one. A name that no
//! binder introduces is an error, so a term that comes out of here never has
//! a variable that refers to nothing.

use vstd::prelude::*;
use vstd::string::*;
use crate::lexer::{
    all_digits, decimal, is_digit, is_word_char, lex, tokens_from, tokens_of, word_end, word_token,
    LowerError, Token,
};
use crate::parser::{
    parse, parsed, parsed_application, parsed_arguments, parsed_atom, parsed_expr, Expr, NamedExpr,
    Tok, Tp,
};
use crate::tree::{Ix, Tm, Ty};

verus! {

/// An expression whose names have been replaced by de Bruijn indices. A
/// number is still written as a number.
#[derive(Debug, PartialEq, Eq)]
pub enum DBExpr {
    True,
    False,
    Nat(u64),
    Var(usize),
    If(Box<DBExpr>, Box<DBExpr>, Box<DBExpr>),
    Lam(Tp, Box<DBExpr>),
    App(Box<DBExpr>, Box<DBExpr>),
    Let(Box<DBExpr>, Box<DBExpr>),
    IsZero(Box<DBExpr>),
    Pred(Box<DBExpr>),
}

/// The texts of a stack of names.
pub open spec fn name_views(names: Seq<String>) -> Seq<Seq<char>> {
    names.map_values(|n: String| n@)
}

/// The index that `name` stands for under the stack `env`, whose last entry
/// is the innermost binder: the distance from the end of the last entry
/// equal to `name`.
pub open spec fn resolved(env: Seq<Seq<char>>, name: Seq<char>) -> Option<nat>
    decreases env.len(),
{
    if env.len() == 0 {
        None
    } else if env.last() == name {
        Some(0)
    } else {
        match resolved(env.drop_last(), name) {
            Some(i) => Some(i + 1),
            None => None,
        }
    }
}

/// The expression `e` with its names resolved under `env`, or the first
/// failure from left to right.
pub open spec fn lowered(e: NamedExpr, env: Seq<Seq<char>>) -> Result<DBExpr, LowerError>
    decreases e,
{
    match e {
        Expr::Bool(true) => Ok(DBExpr::True),
        Expr::Bool(false) => Ok(DBExpr::False),
        Expr::Nat(n) => Ok(DBExpr::Nat(n)),
        Expr::Var(name) => match resolved(env, name) {
            Some(i) => Ok(DBExpr::Var(i as usize)),
            None => Err(LowerError::UnboundVariable),
        },
        Expr::If(c, t, e) => match lowered(*c, env) {
            Ok(c2) => match lowered(*t, env) {
                Ok(t2) => match lowered(*e, env) {
                    Ok(e2) => Ok(DBExpr::If(Box::new(c2), Box::new(t2), Box::new(e2))),
                    Err(x) => Err(x),
                },
                Err(x) => Err(x),
            },
            Err(x) => Err(x),
        },
        Expr::Lam { param, tp, body } => match lowered(*body, env.push(param)) {
            Ok(b) => Ok(DBExpr::Lam(tp, Box::new(b))),
            Err(x) => Err(x),
        },
        Expr::App(f, a) => match lowered(*f, env) {
            Ok(f2) => match lowered(*a, env) {
                Ok(a2) => Ok(DBExpr::App(Box::new(f2), Box::new(a2))),
                Err(x) => Err(x),
            },
            Err(x) => Err(x),
        },
        Expr::Let { name, value, body } => match lowered(*value, env) {
            Ok(v) => match lowered(*body, env.push(name)) {
                Ok(b) => Ok(DBExpr::Let(Box::new(v), Box::new(b))),
                Err(x) => Err(x),
            },
            Err(x) => Err(x),
        },
        Expr::IsZero(e) => match lowered(*e, env) {
            Ok(e2) => Ok(DBExpr::IsZero(Box::new(e2))),
            Err(x) => Err(x),
        },
        Expr::Pred(e) => match lowered(*e, env) {
            Ok(e2) => Ok(DBExpr::Pred(Box::new(e2))),
            Err(x) => Err(x),
        },
    }
}

impl DBExpr {
    /// Whether every index resolves to one of the expression's own binders
    /// or to one of `n` binders around it.
    pub open spec fn scoped(self, n: nat) -> bool
        decreases self,
    {
        match self {
            DBExpr::True | DBExpr::False | DBExpr::Nat(_) => true,
            DBExpr::Var(i) => i < n,
            DBExpr::If(c, t, e) => c.scoped(n) && t.scoped(n) && e.scoped(n),
            DBExpr::Lam(_, b) => b.scoped(n + 1),
            DBExpr::App(f, a) => f.scoped(n) && a.scoped(n),
            DBExpr::Let(v, b) => v.scoped(n) && b.scoped(n + 1),
            DBExpr::IsZero(e) | DBExpr::Pred(e) => e.scoped(n),
        }
    }

    /// The term that the expression stands for: a number becomes a numeral,
    /// an index becomes a unary index.
    pub open spec fn expanded(self) -> Tm
        decreases self,
    {
        match self {
            DBExpr::True => Tm::True,
            DBExpr::False => Tm::False,
            DBExpr::Nat(n) => Tm::numeral(n as nat),
            DBExpr::Var(i) => Tm::Var(Ix::of(i as nat)),
            DBExpr::If(c, t, e) => Tm::If(
                Box::new(c.expanded()),
                Box::new(t.expanded()),
                Box::new(e.expanded()),
            ),
            DBExpr::Lam(tp, b) => Tm::Lam(expanded_type(tp), Box::new(b.expanded())),
            DBExpr::App(f, a) => Tm::App(Box::new(f.expanded()), Box::new(a.expanded())),
            DBExpr::Let(v, b) => Tm::Let(Box::new(v.expanded()), Box::new(b.expanded())),
            DBExpr::IsZero(e) => Tm::IsZero(Box::new(e.expanded())),
            DBExpr::Pred(e) => Tm::Pred(Box::new(e.expanded())),
        }
    }

    /// A well-scoped expression stands for a well-scoped term.
    pub proof fn lemma_expanded_closed(self, n: nat)
        requires
            self.scoped(n),
        ensures
            self.expanded().closed_at(n),
        decreases self,
    {
        match self {
            DBExpr::True | DBExpr::False => {},
            DBExpr::Nat(k) => {
                Tm::lemma_numeral(k as nat);
                Tm::numeral(k as nat).lemma_numeral_is_value();
                Tm::numeral(k as nat).lemma_closed_at_more(0, n);
            },
            DBExpr::Var(i) => {
                Ix::lemma_depth_of(i as nat);
            },
            DBExpr::If(c, t, e) => {
                c.lemma_expanded_closed(n);
                t.lemma_expanded_closed(n);
                e.lemma_expanded_closed(n);
            },
            DBExpr::Lam(_, b) => {
                b.lemma_expanded_closed(n + 1);
            },
            DBExpr::App(f, a) => {
                f.lemma_expanded_closed(n);
                a.lemma_expanded_closed(n);
            },
            DBExpr::Let(v, b) => {
                v.lemma_expanded_closed(n);
                b.lemma_expanded_closed(n + 1);
            },
            DBExpr::IsZero(e) | DBExpr::Pred(e) => {
                e.lemma_expanded_closed(n);
            },
        }
    }
}

/// The type that a written type stands for.
pub open spec fn expanded_type(tp: Tp) -> Ty
    decreases tp,
{
    match tp {
        Tp::Bool => Ty::Bool,
        Tp::Nat => Ty::Nat,
        Tp::Arrow(from, to) => Ty::Arrow(
            Box::new(expanded_type(*from)),
            Box::new(expanded_type(*to)),
        ),
    }
}

/// The term that a source text writes.
pub open spec fn term_of(src: Seq<char>) -> Result<Tm, LowerError> {
    match tokens_of(src) {
        Ok(ts) => match parsed(ts) {
            Ok(e) => match lowered(e, Seq::empty()) {
                Ok(d) => Ok(d.expanded()),
                Err(x) => Err(x),
            },
            Err(x) => Err(x),
        },
        Err(x) => Err(x),
    }
}

/// A name that resolves, resolves to a binder of the stack.
pub proof fn lemma_resolved_in_range(env: Seq<Seq<char>>, name: Seq<char>)
    ensures
        resolved(env, name) matches Some(i) ==> i < env.len() && env[env.len() - 1 - i] == name,
    decreases env.len(),
{
    if env.len() > 0 && env.last() != name {
        lemma_resolved_in_range(env.drop_last(), name);
    }
}

/// What lowering gives is well-scoped under the stack it was lowered with.
pub proof fn lemma_lowered_scoped(e: NamedExpr, env: Seq<Seq<char>>)
    requires
        env.len() <= usize::MAX,
    ensures
        lowered(e, env) matches Ok(d) ==> d.scoped(env.len()),
    decreases e,
{
    match e {
        Expr::Bool(_) | Expr::Nat(_) => {},
        Expr::Var(name) => {
            lemma_resolved_in_range(env, name);
        },
        Expr::If(c, t, e) => {
            lemma_lowered_scoped(*c, env);
            lemma_lowered_scoped(*t, env);
            lemma_lowered_scoped(*e, env);
        },
        Expr::Lam { param, tp, body } => {
            if env.len() < usize::MAX {
                lemma_lowered_scoped(*body, env.push(param));
            } else {
                lemma_lowered_scoped_deep(*body, env.push(param));
            }
        },
        Expr::App(f, a) => {
            lemma_lowered_scoped(*f, env);
            lemma_lowered_scoped(*a, env);
        },
        Expr::Let { name, value, body } => {
            lemma_lowered_scoped(*value, env);
            if env.len() < usize::MAX {
                lemma_lowered_scoped(*body, env.push(name));
            } else {
                lemma_lowered_scoped_deep(*body, env.push(name));
            }
        },
        Expr::IsZero(e) | Expr::Pred(e) => {
            lemma_lowered_scoped(*e, env);
        },
    }
}

/// Under a stack too long for an index to overflow into, every index that
/// lowering writes is still below the length of the stack.
proof fn lemma_lowered_scoped_deep(e: NamedExpr, env: Seq<Seq<char>>)
    requires
        env.len() > usize::MAX,
    ensures
        lowered(e, env) matches Ok(d) ==> d.scoped(env.len()),
    decreases e,
{
    match e {
        Expr::Bool(_) | Expr::Nat(_) | Expr::Var(_) => {},
        Expr::If(c, t, e) => {
            lemma_lowered_scoped_deep(*c, env);
            lemma_lowered_scoped_deep(*t, env);
            lemma_lowered_scoped_deep(*e, env);
        },
        Expr::Lam { param, tp, body } => {
            lemma_lowered_scoped_deep(*body, env.push(param));
        },
        Expr::App(f, a) => {
            lemma_lowered_scoped_deep(*f, env);
            lemma_lowered_scoped_deep(*a, env);
        },
        Expr::Let { name, value, body } => {
            lemma_lowered_scoped_deep(*value, env);
            lemma_lowered_scoped_deep(*body, env.push(name));
        },
        Expr::IsZero(e) | Expr::Pred(e) => {
            lemma_lowered_scoped_deep(*e, env);
        },
    }
}

/// Resolving names fails for one reason only: a name that is not bound.
pub proof fn lemma_lowered_fails_unbound(e: NamedExpr, env: Seq<Seq<char>>)
    ensures
        lowered(e, env) matches Err(x) ==> x == LowerError::UnboundVariable,
    decreases e,
{
    match e {
        Expr::Bool(_) | Expr::Nat(_) | Expr::Var(_) => {},
        Expr::If(c, t, e) => {
            lemma_lowered_fails_unbound(*c, env);
            lemma_lowered_fails_unbound(*t, env);
            lemma_lowered_fails_unbound(*e, env);
        },
        Expr::Lam { param, tp, body } => {
            lemma_lowered_fails_unbound(*body, env.push(param));
        },
        Expr::App(f, a) => {
            lemma_lowered_fails_unbound(*f, env);
            lemma_lowered_fails_unbound(*a, env);
        },
        Expr::Let { name, value, body } => {
            lemma_lowered_fails_unbound(*value, env);
            lemma_lowered_fails_unbound(*body, env.push(name));
        },
        Expr::IsZero(e) | Expr::Pred(e) => {
            lemma_lowered_fails_unbound(*e, env);
        },
    }
}

/// A term that a source text writes has no free variable.
pub proof fn lemma_term_of_closed(src: Seq<char>)
    ensures
        term_of(src) matches Ok(t) ==> t.closed(),
{
    if let Ok(ts) = tokens_of(src) {
        if let Ok(e) = parsed(ts) {
            lemma_lowered_scoped(e, Seq::empty());
            if let Ok(d) = lowered(e, Seq::empty()) {
                d.lemma_expanded_closed(0);
            }
        }
    }
}

/// A run of digits is one word.
proof fn lemma_digits_are_one_word(digits: Seq<char>, pos: int)
    requires
        0 <= pos <= digits.len(),
        all_digits(digits),
    ensures
        word_end(digits, pos) == digits.len(),
    decreases digits.len() - pos,
{
    if pos < digits.len() {
        assert(is_digit(digits[pos]));
        lemma_digits_are_one_word(digits, pos + 1);
    }
}

/// A source text that is a decimal number which fits in 64 bits writes the
/// numeral of that number: a chain of that many `Succ` that ends in `Zero`.
pub proof fn lemma_literal_term(digits: Seq<char>)
    requires
        digits.len() > 0,
        all_digits(digits),
        decimal(digits) <= u64::MAX,
    ensures
        term_of(digits) == Ok::<Tm, LowerError>(Tm::numeral(decimal(digits))),
{
    let n = decimal(digits) as u64;
    let token: Tok = Token::Int(n);
    let ts = seq![token];
    assert(vstd::utf8::is_ascii_chars(digits)) by {
        assert forall|i: int| 0 <= i < digits.len() implies '\0' <= #[trigger] digits[i]
            <= '\u{7f}' by {
            assert(is_digit(digits[i]));
        }
    }
    assert(is_digit(digits[0]));
    assert(is_word_char(digits[0]));
    lemma_digits_are_one_word(digits, 1);
    assert(digits.subrange(0, digits.len() as int) == digits);
    assert(word_token(digits) == Ok::<Tok, LowerError>(token));
    assert(tokens_from(digits, digits.len() as int) == Ok::<Seq<Tok>, LowerError>(Seq::empty()));
    assert(ts + Seq::<Tok>::empty() == ts);
    assert(tokens_of(digits) == Ok::<Seq<Tok>, LowerError>(ts));
    let number: NamedExpr = Expr::Nat(n);
    assert(parsed_atom(ts, 0) == Ok::<(NamedExpr, int), LowerError>((number, 1)));
    assert(parsed_arguments(ts, 1, number) == Ok::<(NamedExpr, int), LowerError>((number, 1)));
    assert(parsed_application(ts, 0) == Ok::<(NamedExpr, int), LowerError>((number, 1)));
    assert(parsed_expr(ts, 0) == Ok::<(NamedExpr, int), LowerError>((number, 1)));
    assert(parsed(ts) == Ok::<NamedExpr, LowerError>(number));
}

/// Finds the index that `name` stands for under `env`.
fn resolve(env: &Vec<String>, name: &String) -> (r: Option<usize>)
    ensures
        match r {
            Some(i) => resolved(name_views(env@), name@) == Some(i as nat),
            None => resolved(name_views(env@), name@) is None,
        },
{
    let ghost names = name_views(env@);
    let mut at: usize = env.len();
    assert(names.take(at as int) == names);
    while at > 0
        invariant
            at <= env.len(),
            names == name_views(env@),
            resolved(names, name@) == match resolved(names.take(at as int), name@) {
                Some(i) => Some((i + (env.len() - at)) as nat),
                None => None,
            },
        decreases at,
    {
        at -= 1;
        let ghost shorter = names.take(at + 1);
        assert(shorter.last() == env@[at as int]@);
        assert(shorter.drop_last() == names.take(at as int));
        if env[at] == *name {
            return Some(env.len() - 1 - at);
        }
    }
    None
}

/// Replaces the names of `expr` by indices. `env` holds the names bound
/// around `expr`, the innermost last; it is used as a stack on the way and
/// handed back as it was.
pub fn lower(expr: &Expr<String>, env: &mut Vec<String>) -> (r: Result<DBExpr, LowerError>)
    ensures
        final(env)@ == old(env)@,
        r == lowered(expr@, name_views(old(env)@)),
        r matches Ok(d) ==> d.scoped(old(env)@.len()),
        r matches Err(x) ==> x == LowerError::UnboundVariable,
    decreases *expr,
{
    proof {
        lemma_lowered_fails_unbound(expr@, name_views(env@));
        assert(name_views(env@).len() == env.len());
        lemma_lowered_scoped(expr@, name_views(env@));
    }
    let ghost names = name_views(env@);
    match expr {
        Expr::Bool(true) => Ok(DBExpr::True),
        Expr::Bool(false) => Ok(DBExpr::False),
        Expr::Nat(n) => Ok(DBExpr::Nat(*n)),
        Expr::Var(name) => match resolve(env, name) {
            Some(idx) => Ok(DBExpr::Var(idx)),
            None => Err(LowerError::UnboundVariable),
        },
        Expr::If(c, t, e) => {
            let c2 = match lower(c, env) {
                Ok(d) => d,
                Err(x) => {
                    return Err(x);
                },
            };
            let t2 = match lower(t, env) {
                Ok(d) => d,
                Err(x) => {
                    return Err(x);
                },
            };
            let e2 = match lower(e, env) {
                Ok(d) => d,
                Err(x) => {
                    return Err(x);
                },
            };
            Ok(DBExpr::If(Box::new(c2), Box::new(t2), Box::new(e2)))
        },
        Expr::Lam { param, tp, body } => {
            env.push(param.clone());
            assert(name_views(env@) == names.push(param@));
            let b = lower(body, env);
            env.pop();
            assert(env@ == old(env)@);
            match b {
                Ok(b2) => Ok(DBExpr::Lam(copy_type(tp), Box::new(b2))),
                Err(x) => Err(x),
            }
        },
        Expr::App(f, x) => {
            let f2 = match lower(f, env) {
                Ok(d) => d,
                Err(x) => {
                    return Err(x);
                },
            };
            let x2 = match lower(x, env) {
                Ok(d) => d,
                Err(x) => {
                    return Err(x);
                },
            };
            Ok(DBExpr::App(Box::new(f2), Box::new(x2)))
        },
        Expr::Let { name, value, body } => {
            let v = match lower(value, env) {
                Ok(d) => d,
                Err(x) => {
                    return Err(x);
                },
            };
            env.push(name.clone());
            assert(name_views(env@) == names.push(name@));
            let b = lower(body, env);
            env.pop();
            assert(env@ == old(env)@);
            match b {
                Ok(b2) => Ok(DBExpr::Let(Box::new(v), Box::new(b2))),
                Err(x) => Err(x),
            }
        },
        Expr::IsZero(e) => match lower(e, env) {
            Ok(d) => Ok(DBExpr::IsZero(Box::new(d))),
            Err(x) => Err(x),
        },
        Expr::Pred(e) => match lower(e, env) {
            Ok(d) => Ok(DBExpr::Pred(Box::new(d))),
            Err(x) => Err(x),
        },
    }
}

/// A copy of a written type.
fn copy_type(tp: &Tp) -> (r: Tp)
    ensures
        r == *tp,
    decreases *tp,
{
    match tp {
        Tp::Bool => Tp::Bool,
        Tp::Nat => Tp::Nat,
        Tp::Arrow(from, to) => Tp::Arrow(Box::new(copy_type(from)), Box::new(copy_type(to))),
    }
}

/// The unary index for `n`.
pub fn index_type(n: usize) -> (r: Ix)
    ensures
        r == Ix::of(n as nat),
        r.depth() == n,
{
    let mut ix = Ix::Z;
    let mut done: usize = 0;
    while done < n
        invariant
            done <= n,
            ix == Ix::of(done as nat),
        decreases n - done,
    {
        ix = Ix::S(Box::new(ix));
        done += 1;
    }
    proof {
        Ix::lemma_depth_of(n as nat);
    }
    ix
}

/// The type that a written type stands for.
pub fn expand_type(tp: &Tp) -> (r: Ty)
    ensures
        r == expanded_type(*tp),
    decreases *tp,
{
    match tp {
        Tp::Bool => Ty::Bool,
        Tp::Nat => Ty::Nat,
        Tp::Arrow(from, to) => {
            let from = expand_type(from);
            let to = expand_type(to);
            Ty::Arrow(Box::new(from), Box::new(to))
        },
    }
}

impl DBExpr {
    /// The term that the expression stands for.
    pub fn expand(&self) -> (r: Tm)
        ensures
            r == self.expanded(),
        decreases *self,
    {
        match self {
            DBExpr::True => Tm::True,
            DBExpr::False => Tm::False,
            DBExpr::Nat(n) => {
                let mut t = Tm::Zero;
                let mut done: u64 = 0;
                while done < *n
                    invariant
                        done <= *n,
                        t == Tm::numeral(done as nat),
                    decreases *n - done,
                {
                    t = Tm::Succ(Box::new(t));
                    done += 1;
                }
                t
            },
            DBExpr::Var(i) => {
                let idx = index_type(*i);
                Tm::Var(idx)
            },
            DBExpr::If(c, t, e) => {
                let c = c.expand();
                let t = t.expand();
                let e = e.expand();
                Tm::If(Box::new(c), Box::new(t), Box::new(e))
            },
            DBExpr::Lam(tp, body) => {
                let b = body.expand();
                let ty = expand_type(tp);
                Tm::Lam(ty, Box::new(b))
            },
            DBExpr::App(f, x) => {
                let f = f.expand();
                let x = x.expand();
                Tm::App(Box::new(f), Box::new(x))
            },
            DBExpr::Let(v, b) => {
                let v = v.expand();
                let b = b.expand();
                Tm::Let(Box::new(v), Box::new(b))
            },
            DBExpr::IsZero(expr) => {
                let e = expr.expand();
                Tm::IsZero(Box::new(e))
            },
            DBExpr::Pred(expr) => {
                let e = expr.expand();
                Tm::Pred(Box::new(e))
            },
        }
    }
}

/// Reads a source text as a term: splits it into tokens, reads the
/// expression they write, resolves its names and writes out numbers and
/// indices. The term has no free variable.
pub fn stlc(input: &str) -> (r: Result<Tm, LowerError>)
    ensures
        r == term_of(input@),
        r matches Ok(t) ==> t.closed(),
{
    proof {
        lemma_term_of_closed(input@);
    }
    let tokens = match lex(input) {
        Ok(tokens) => tokens,
        Err(e) => {
            return Err(e);
        },
    };
    let expr = match parse(&tokens) {
        Ok(expr) => expr,
        Err(e) => {
            return Err(e);
        },
    };
    let mut env: Vec<String> = Vec::new();
    assert(name_views(env@) == Seq::<Seq<char>>::empty());
    let db = match lower(&expr, &mut env) {
        Ok(db) => db,
        Err(e) => {
            return Err(e);
        },
    };
    Ok(db.expand())
}

} // verus!
