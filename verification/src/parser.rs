//! The grammar of the surface language.
//!
//! ```text
//! expr    := "let" IDENT "=" expr "in" expr
//!          | "if" expr "then" expr "else" expr
//!          | "fn" IDENT ":" type "=>" expr
//!          | appExpr
//! appExpr := atom+
//! atom    := "true" | "false" | INTEGER | "iszero" | "pred"
//!          | "(" expr ")" | IDENT
//! type    := "Bool" | "Nat" | "(" type "->" type ")"
//! ```
//!
//! Application is written by juxtaposition, associates to the left and binds
//! tighter than everything else; a run of atoms ends at `in`, `then`,
//! `else`, `)` or the end of the text. `iszero` and `pred` stand for the
//! functions `fn x: Nat => iszero x` and `fn x: Nat => pred x`, so that they
//! can be passed around like any other function.

use vstd::prelude::*;
use vstd::string::*;
use crate::lexer::{token_views, LowerError, Token};

verus! {

/// A type as it is written in the surface language.
#[derive(Debug, PartialEq, Eq)]
pub enum Tp {
    Bool,
    Nat,
    Arrow(Box<Tp>, Box<Tp>),
}

/// An expression with named variables. `N` is the type of a name: `String`
/// in a running program, `Seq<char>` in a contract.
#[derive(Debug, PartialEq, Eq)]
pub enum Expr<N> {
    Bool(bool),
    Nat(u64),
    Var(N),
    If(Box<Expr<N>>, Box<Expr<N>>, Box<Expr<N>>),
    Lam { param: N, tp: Tp, body: Box<Expr<N>> },
    App(Box<Expr<N>>, Box<Expr<N>>),
    Let { name: N, value: Box<Expr<N>>, body: Box<Expr<N>> },
    IsZero(Box<Expr<N>>),
    Pred(Box<Expr<N>>),
}

/// An expression as contracts see it.
pub type NamedExpr = Expr<Seq<char>>;

/// A token as contracts see it.
pub type Tok = Token<Seq<char>>;

impl Expr<String> {
    /// The expression with every name replaced by its text.
    pub open spec fn named(self) -> NamedExpr
        decreases self,
    {
        match self {
            Expr::Bool(b) => Expr::Bool(b),
            Expr::Nat(n) => Expr::Nat(n),
            Expr::Var(name) => Expr::Var(name@),
            Expr::If(c, t, e) => Expr::If(
                Box::new(c.named()),
                Box::new(t.named()),
                Box::new(e.named()),
            ),
            Expr::Lam { param, tp, body } => Expr::Lam {
                param: param@,
                tp,
                body: Box::new(body.named()),
            },
            Expr::App(f, a) => Expr::App(Box::new(f.named()), Box::new(a.named())),
            Expr::Let { name, value, body } => Expr::Let {
                name: name@,
                value: Box::new(value.named()),
                body: Box::new(body.named()),
            },
            Expr::IsZero(e) => Expr::IsZero(Box::new(e.named())),
            Expr::Pred(e) => Expr::Pred(Box::new(e.named())),
        }
    }
}

impl View for Expr<String> {
    type V = NamedExpr;

    open spec fn view(&self) -> NamedExpr {
        self.named()
    }
}

/// What stands in the way where the token `want` is asked for at `pos`.
pub open spec fn missing(ts: Seq<Tok>, pos: int, want: Tok) -> Option<LowerError> {
    if pos < 0 || pos >= ts.len() {
        Some(LowerError::UnexpectedEnd)
    } else if ts[pos] == want {
        None
    } else {
        Some(LowerError::UnexpectedToken)
    }
}

/// What stands in the way where a name is asked for at `pos`.
pub open spec fn missing_name(ts: Seq<Tok>, pos: int) -> Option<LowerError> {
    if pos < 0 || pos >= ts.len() {
        Some(LowerError::UnexpectedEnd)
    } else if ts[pos] is Ident {
        None
    } else {
        Some(LowerError::UnexpectedToken)
    }
}

/// Whether a run of atoms ends at `pos`.
pub open spec fn ends_application(ts: Seq<Tok>, pos: int) -> bool {
    pos < 0 || pos >= ts.len() || ts[pos] is In || ts[pos] is Then || ts[pos] is Else
        || ts[pos] is RParen
}

/// The function that the word `iszero` stands for.
pub open spec fn is_zero_function() -> NamedExpr {
    Expr::Lam {
        param: "x"@,
        tp: Tp::Nat,
        body: Box::new(Expr::IsZero(Box::new(Expr::Var("x"@)))),
    }
}

/// The function that the word `pred` stands for.
pub open spec fn pred_function() -> NamedExpr {
    Expr::Lam {
        param: "x"@,
        tp: Tp::Nat,
        body: Box::new(Expr::Pred(Box::new(Expr::Var("x"@)))),
    }
}

/// The type that starts at `pos`, with the position after it.
///
/// In this and the following definitions a part is only looked for behind a
/// part that ended after the place where the whole began. That is what
/// makes the definitions well-founded; each part that is found does end
/// later than it began (`lemma_type_moves_on`, `lemma_expr_moves_on`).
pub open spec fn parsed_type(ts: Seq<Tok>, pos: int) -> Result<(Tp, int), LowerError>
    decreases ts.len() - pos,
{
    if pos < 0 || pos >= ts.len() {
        Err(LowerError::UnexpectedEnd)
    } else {
        match ts[pos] {
            Token::Ident(word) => if word == "Bool"@ {
                Ok((Tp::Bool, pos + 1))
            } else if word == "Nat"@ {
                Ok((Tp::Nat, pos + 1))
            } else {
                Err(LowerError::UnexpectedToken)
            },
            Token::LParen => match parsed_type(ts, pos + 1) {
                Ok((from, p1)) => if p1 <= pos {
                    Err(LowerError::UnexpectedToken)
                } else {
                    match missing(ts, p1, Token::Arrow) {
                        Some(e) => Err(e),
                        None => match parsed_type(ts, p1 + 1) {
                            Ok((to, p2)) => match missing(ts, p2, Token::RParen) {
                                Some(e) => Err(e),
                                None => Ok((Tp::Arrow(Box::new(from), Box::new(to)), p2 + 1)),
                            },
                            Err(e) => Err(e),
                        },
                    }
                },
                Err(e) => Err(e),
            },
            _ => Err(LowerError::UnexpectedToken),
        }
    }
}

/// The expression that starts at `pos`, with the position after it.
pub open spec fn parsed_expr(ts: Seq<Tok>, pos: int) -> Result<(NamedExpr, int), LowerError>
    decreases ts.len() - pos, 3int,
{
    if pos < 0 || pos >= ts.len() {
        Err(LowerError::UnexpectedEnd)
    } else {
        match ts[pos] {
            Token::Let => parsed_let(ts, pos),
            Token::If => parsed_if(ts, pos),
            Token::Fn => parsed_fn(ts, pos),
            _ => parsed_application(ts, pos),
        }
    }
}

/// The `let` expression whose `let` stands at `pos`.
pub open spec fn parsed_let(ts: Seq<Tok>, pos: int) -> Result<(NamedExpr, int), LowerError>
    decreases ts.len() - pos, 2int,
{
    if pos < 0 || pos >= ts.len() {
        Err(LowerError::UnexpectedEnd)
    } else if let Some(e) = missing_name(ts, pos + 1) {
        Err(e)
    } else if let Some(e) = missing(ts, pos + 2, Token::Equals) {
        Err(e)
    } else {
        match parsed_expr(ts, pos + 3) {
            Ok((value, p1)) => if p1 <= pos {
                Err(LowerError::UnexpectedToken)
            } else {
                match missing(ts, p1, Token::In) {
                    Some(e) => Err(e),
                    None => match parsed_expr(ts, p1 + 1) {
                        Ok((body, p2)) => Ok(
                            (
                                Expr::Let {
                                    name: ts[pos + 1]->Ident_0,
                                    value: Box::new(value),
                                    body: Box::new(body),
                                },
                                p2,
                            ),
                        ),
                        Err(e) => Err(e),
                    },
                }
            },
            Err(e) => Err(e),
        }
    }
}

/// The conditional whose `if` stands at `pos`.
pub open spec fn parsed_if(ts: Seq<Tok>, pos: int) -> Result<(NamedExpr, int), LowerError>
    decreases ts.len() - pos, 2int,
{
    if pos < 0 || pos >= ts.len() {
        Err(LowerError::UnexpectedEnd)
    } else {
        match parsed_expr(ts, pos + 1) {
            Ok((cond, p1)) => if p1 <= pos {
                Err(LowerError::UnexpectedToken)
            } else {
                match missing(ts, p1, Token::Then) {
                    Some(e) => Err(e),
                    None => match parsed_expr(ts, p1 + 1) {
                        Ok((then, p2)) => if p2 <= pos {
                            Err(LowerError::UnexpectedToken)
                        } else {
                            match missing(ts, p2, Token::Else) {
                                Some(e) => Err(e),
                                None => match parsed_expr(ts, p2 + 1) {
                                    Ok((other, p3)) => Ok(
                                        (
                                            Expr::If(
                                                Box::new(cond),
                                                Box::new(then),
                                                Box::new(other),
                                            ),
                                            p3,
                                        ),
                                    ),
                                    Err(e) => Err(e),
                                },
                            }
                        },
                        Err(e) => Err(e),
                    },
                }
            },
            Err(e) => Err(e),
        }
    }
}

/// The function whose `fn` stands at `pos`.
pub open spec fn parsed_fn(ts: Seq<Tok>, pos: int) -> Result<(NamedExpr, int), LowerError>
    decreases ts.len() - pos, 2int,
{
    if pos < 0 || pos >= ts.len() {
        Err(LowerError::UnexpectedEnd)
    } else if let Some(e) = missing_name(ts, pos + 1) {
        Err(e)
    } else if let Some(e) = missing(ts, pos + 2, Token::Colon) {
        Err(e)
    } else {
        match parsed_type(ts, pos + 3) {
            Ok((tp, p1)) => if p1 <= pos {
                Err(LowerError::UnexpectedToken)
            } else {
                match missing(ts, p1, Token::FatArrow) {
                    Some(e) => Err(e),
                    None => match parsed_expr(ts, p1 + 1) {
                        Ok((body, p2)) => Ok(
                            (
                                Expr::Lam {
                                    param: ts[pos + 1]->Ident_0,
                                    tp,
                                    body: Box::new(body),
                                },
                                p2,
                            ),
                        ),
                        Err(e) => Err(e),
                    },
                }
            },
            Err(e) => Err(e),
        }
    }
}

/// The run of atoms that starts at `pos`, applied from left to right.
pub open spec fn parsed_application(ts: Seq<Tok>, pos: int) -> Result<
    (NamedExpr, int),
    LowerError,
>
    decreases ts.len() - pos, 2int,
{
    match parsed_atom(ts, pos) {
        Ok((head, p1)) => if p1 <= pos || p1 > ts.len() {
            Err(LowerError::UnexpectedToken)
        } else {
            parsed_arguments(ts, p1, head)
        },
        Err(e) => Err(e),
    }
}

/// `head` applied to the atoms that follow from `pos` on.
pub open spec fn parsed_arguments(ts: Seq<Tok>, pos: int, head: NamedExpr) -> Result<
    (NamedExpr, int),
    LowerError,
>
    decreases ts.len() - pos, 1int,
{
    if ends_application(ts, pos) {
        Ok((head, pos))
    } else {
        match parsed_atom(ts, pos) {
            Ok((arg, p1)) => if p1 <= pos || p1 > ts.len() {
                Err(LowerError::UnexpectedToken)
            } else {
                parsed_arguments(ts, p1, Expr::App(Box::new(head), Box::new(arg)))
            },
            Err(e) => Err(e),
        }
    }
}

/// The atom that starts at `pos`, with the position after it.
pub open spec fn parsed_atom(ts: Seq<Tok>, pos: int) -> Result<(NamedExpr, int), LowerError>
    decreases ts.len() - pos, 0int,
{
    if pos < 0 || pos >= ts.len() {
        Err(LowerError::UnexpectedEnd)
    } else {
        match ts[pos] {
            Token::True => Ok((Expr::Bool(true), pos + 1)),
            Token::False => Ok((Expr::Bool(false), pos + 1)),
            Token::Int(n) => Ok((Expr::Nat(n), pos + 1)),
            Token::IsZero => Ok((is_zero_function(), pos + 1)),
            Token::Pred => Ok((pred_function(), pos + 1)),
            Token::Ident(name) => Ok((Expr::Var(name), pos + 1)),
            Token::LParen => match parsed_expr(ts, pos + 1) {
                Ok((inner, p1)) => match missing(ts, p1, Token::RParen) {
                    Some(e) => Err(e),
                    None => Ok((inner, p1 + 1)),
                },
                Err(e) => Err(e),
            },
            _ => Err(LowerError::UnexpectedToken),
        }
    }
}

/// The expression that a run of tokens writes: the one that starts at the
/// first token and ends with the last.
pub open spec fn parsed(ts: Seq<Tok>) -> Result<NamedExpr, LowerError> {
    match parsed_expr(ts, 0) {
        Ok((e, end)) => if end == ts.len() {
            Ok(e)
        } else {
            Err(LowerError::TrailingInput)
        },
        Err(e) => Err(e),
    }
}

/// A type that is found ends after the place where it began, and inside
/// the text.
pub proof fn lemma_type_moves_on(ts: Seq<Tok>, pos: int)
    ensures
        parsed_type(ts, pos) matches Ok((_, end)) ==> pos < end <= ts.len(),
    decreases ts.len() - pos,
{
    if 0 <= pos < ts.len() && ts[pos] is LParen {
        lemma_type_moves_on(ts, pos + 1);
        if let Ok((_, p1)) = parsed_type(ts, pos + 1) {
            if missing(ts, p1, Token::Arrow) is None {
                lemma_type_moves_on(ts, p1 + 1);
            }
        }
    }
}

/// An expression that is found ends after the place where it began, and
/// inside the text.
pub proof fn lemma_expr_moves_on(ts: Seq<Tok>, pos: int)
    ensures
        parsed_expr(ts, pos) matches Ok((_, end)) ==> pos < end <= ts.len(),
    decreases ts.len() - pos, 3int,
{
    if 0 <= pos < ts.len() {
        match ts[pos] {
            Token::Let => {
                if missing_name(ts, pos + 1) is None && missing(ts, pos + 2, Token::Equals) is None {
                    lemma_expr_moves_on(ts, pos + 3);
                    if let Ok((_, p1)) = parsed_expr(ts, pos + 3) {
                        if missing(ts, p1, Token::In) is None {
                            lemma_expr_moves_on(ts, p1 + 1);
                        }
                    }
                }
            },
            Token::If => {
                lemma_expr_moves_on(ts, pos + 1);
                if let Ok((_, p1)) = parsed_expr(ts, pos + 1) {
                    if missing(ts, p1, Token::Then) is None {
                        lemma_expr_moves_on(ts, p1 + 1);
                        if let Ok((_, p2)) = parsed_expr(ts, p1 + 1) {
                            if missing(ts, p2, Token::Else) is None {
                                lemma_expr_moves_on(ts, p2 + 1);
                            }
                        }
                    }
                }
            },
            Token::Fn => {
                if missing_name(ts, pos + 1) is None && missing(ts, pos + 2, Token::Colon) is None {
                    lemma_type_moves_on(ts, pos + 3);
                    if let Ok((_, p1)) = parsed_type(ts, pos + 3) {
                        if missing(ts, p1, Token::FatArrow) is None {
                            lemma_expr_moves_on(ts, p1 + 1);
                        }
                    }
                }
            },
            _ => {
                lemma_application_moves_on(ts, pos);
            },
        }
    }
}

/// A run of atoms that is found ends after the place where it began, and
/// inside the text.
pub proof fn lemma_application_moves_on(ts: Seq<Tok>, pos: int)
    ensures
        parsed_application(ts, pos) matches Ok((_, end)) ==> pos < end <= ts.len(),
    decreases ts.len() - pos, 2int,
{
    lemma_atom_moves_on(ts, pos);
    if let Ok((head, p1)) = parsed_atom(ts, pos) {
        lemma_arguments_move_on(ts, p1, head);
    }
}

proof fn lemma_arguments_move_on(ts: Seq<Tok>, pos: int, head: NamedExpr)
    requires
        0 <= pos <= ts.len(),
    ensures
        parsed_arguments(ts, pos, head) matches Ok((_, end)) ==> pos <= end <= ts.len(),
    decreases ts.len() - pos, 1int,
{
    if !ends_application(ts, pos) {
        lemma_atom_moves_on(ts, pos);
        if let Ok((arg, p1)) = parsed_atom(ts, pos) {
            lemma_arguments_move_on(ts, p1, Expr::App(Box::new(head), Box::new(arg)));
        }
    }
}

/// An atom that is found ends after the place where it began, and inside
/// the text.
pub proof fn lemma_atom_moves_on(ts: Seq<Tok>, pos: int)
    ensures
        parsed_atom(ts, pos) matches Ok((_, end)) ==> pos < end <= ts.len(),
    decreases ts.len() - pos, 0int,
{
    if 0 <= pos < ts.len() && ts[pos] is LParen {
        lemma_expr_moves_on(ts, pos + 1);
    }
}

/// Whether `token` is the token `want`, where `want` is a token that
/// carries nothing.
fn is_token(token: &Token<String>, want: &Token<String>) -> (r: bool)
    requires
        !(want is Ident),
        !(want is Int),
    ensures
        r == (token@ == want@),
{
    match (token, want) {
        (Token::Let, Token::Let) => true,
        (Token::In, Token::In) => true,
        (Token::If, Token::If) => true,
        (Token::Then, Token::Then) => true,
        (Token::Else, Token::Else) => true,
        (Token::Fn, Token::Fn) => true,
        (Token::True, Token::True) => true,
        (Token::False, Token::False) => true,
        (Token::IsZero, Token::IsZero) => true,
        (Token::Pred, Token::Pred) => true,
        (Token::LParen, Token::LParen) => true,
        (Token::RParen, Token::RParen) => true,
        (Token::Colon, Token::Colon) => true,
        (Token::Equals, Token::Equals) => true,
        (Token::FatArrow, Token::FatArrow) => true,
        (Token::Arrow, Token::Arrow) => true,
        _ => false,
    }
}

/// Checks that the token `want` stands at `pos`.
fn expect(tokens: &Vec<Token<String>>, pos: usize, want: Token<String>) -> (r: Result<
    (),
    LowerError,
>)
    requires
        !(want is Ident),
        !(want is Int),
    ensures
        match r {
            Ok(_) => missing(token_views(tokens@), pos as int, want@) is None,
            Err(e) => missing(token_views(tokens@), pos as int, want@) == Some(e),
        },
{
    if pos >= tokens.len() {
        Err(LowerError::UnexpectedEnd)
    } else if is_token(&tokens[pos], &want) {
        Ok(())
    } else {
        Err(LowerError::UnexpectedToken)
    }
}

/// The name that stands at `pos`.
fn name_at(tokens: &Vec<Token<String>>, pos: usize) -> (r: Result<String, LowerError>)
    ensures
        match r {
            Ok(name) => missing_name(token_views(tokens@), pos as int) is None && token_views(
                tokens@,
            )[pos as int] == Token::<Seq<char>>::Ident(name@),
            Err(e) => missing_name(token_views(tokens@), pos as int) == Some(e),
        },
{
    if pos >= tokens.len() {
        Err(LowerError::UnexpectedEnd)
    } else {
        match &tokens[pos] {
            Token::Ident(name) => Ok(name.clone()),
            _ => Err(LowerError::UnexpectedToken),
        }
    }
}

/// Whether `word` is the text `text`.
fn is_word(word: &String, text: &str) -> (r: bool)
    ensures
        r == (word@ == text@),
{
    let owned = text.to_owned();
    *word == owned
}

impl Tp {
    /// Reads the type that starts at `pos`, and says where it ends.
    pub fn parse(tokens: &Vec<Token<String>>, pos: usize) -> (r: Result<(Tp, usize), LowerError>)
        ensures
            match r {
                Ok((tp, end)) => parsed_type(token_views(tokens@), pos as int) == Ok::<
                    (Tp, int),
                    LowerError,
                >((tp, end as int)) && pos < end <= tokens.len(),
                Err(e) => parsed_type(token_views(tokens@), pos as int) == Err::<
                    (Tp, int),
                    LowerError,
                >(e),
            },
        decreases tokens.len() - pos,
    {
        if pos >= tokens.len() {
            return Err(LowerError::UnexpectedEnd);
        }
        match &tokens[pos] {
            Token::Ident(word) => {
                if is_word(word, "Bool") {
                    Ok((Tp::Bool, pos + 1))
                } else if is_word(word, "Nat") {
                    Ok((Tp::Nat, pos + 1))
                } else {
                    Err(LowerError::UnexpectedToken)
                }
            },
            Token::LParen => {
                let (from, p1) = match Tp::parse(tokens, pos + 1) {
                    Ok(found) => found,
                    Err(e) => {
                        return Err(e);
                    },
                };
                match expect(tokens, p1, Token::Arrow) {
                    Ok(_) => {},
                    Err(e) => {
                        return Err(e);
                    },
                }
                let (to, p2) = match Tp::parse(tokens, p1 + 1) {
                    Ok(found) => found,
                    Err(e) => {
                        return Err(e);
                    },
                };
                match expect(tokens, p2, Token::RParen) {
                    Ok(_) => {},
                    Err(e) => {
                        return Err(e);
                    },
                }
                Ok((Tp::Arrow(Box::new(from), Box::new(to)), p2 + 1))
            },
            _ => Err(LowerError::UnexpectedToken),
        }
    }
}

impl Expr<String> {
    /// Reads the expression that starts at `pos`, and says where it ends.
    pub fn parse(tokens: &Vec<Token<String>>, pos: usize) -> (r: Result<
        (Expr<String>, usize),
        LowerError,
    >)
        ensures
            match r {
                Ok((e, end)) => parsed_expr(token_views(tokens@), pos as int) == Ok::<
                    (NamedExpr, int),
                    LowerError,
                >((e@, end as int)) && pos < end <= tokens.len(),
                Err(e) => parsed_expr(token_views(tokens@), pos as int) == Err::<
                    (NamedExpr, int),
                    LowerError,
                >(e),
            },
        decreases tokens.len() - pos, 3int,
    {
        if pos >= tokens.len() {
            return Err(LowerError::UnexpectedEnd);
        }
        match &tokens[pos] {
            Token::Let => parse_let(tokens, pos),
            Token::If => parse_if(tokens, pos),
            Token::Fn => parse_fn(tokens, pos),
            _ => parse_application(tokens, pos),
        }
    }
}

/// Reads the `let` expression whose `let` stands at `pos`.
fn parse_let(tokens: &Vec<Token<String>>, pos: usize) -> (r: Result<
    (Expr<String>, usize),
    LowerError,
>)
    requires
        pos < tokens.len(),
    ensures
        match r {
            Ok((e, end)) => parsed_let(token_views(tokens@), pos as int) == Ok::<
                (NamedExpr, int),
                LowerError,
            >((e@, end as int)) && pos < end <= tokens.len(),
            Err(e) => parsed_let(token_views(tokens@), pos as int) == Err::<
                (NamedExpr, int),
                LowerError,
            >(e),
        },
    decreases tokens.len() - pos, 2int,
{
    let name = match name_at(tokens, pos + 1) {
        Ok(name) => name,
        Err(e) => {
            return Err(e);
        },
    };
    match expect(tokens, pos + 2, Token::Equals) {
        Ok(_) => {},
        Err(e) => {
            return Err(e);
        },
    }
    let (value, p1) = match Expr::parse(tokens, pos + 3) {
        Ok(found) => found,
        Err(e) => {
            return Err(e);
        },
    };
    match expect(tokens, p1, Token::In) {
        Ok(_) => {},
        Err(e) => {
            return Err(e);
        },
    }
    let (body, p2) = match Expr::parse(tokens, p1 + 1) {
        Ok(found) => found,
        Err(e) => {
            return Err(e);
        },
    };
    Ok((Expr::Let { name, value: Box::new(value), body: Box::new(body) }, p2))
}

/// Reads the conditional whose `if` stands at `pos`.
fn parse_if(tokens: &Vec<Token<String>>, pos: usize) -> (r: Result<
    (Expr<String>, usize),
    LowerError,
>)
    requires
        pos < tokens.len(),
    ensures
        match r {
            Ok((e, end)) => parsed_if(token_views(tokens@), pos as int) == Ok::<
                (NamedExpr, int),
                LowerError,
            >((e@, end as int)) && pos < end <= tokens.len(),
            Err(e) => parsed_if(token_views(tokens@), pos as int) == Err::<
                (NamedExpr, int),
                LowerError,
            >(e),
        },
    decreases tokens.len() - pos, 2int,
{
    let (cond, p1) = match Expr::parse(tokens, pos + 1) {
        Ok(found) => found,
        Err(e) => {
            return Err(e);
        },
    };
    match expect(tokens, p1, Token::Then) {
        Ok(_) => {},
        Err(e) => {
            return Err(e);
        },
    }
    let (then, p2) = match Expr::parse(tokens, p1 + 1) {
        Ok(found) => found,
        Err(e) => {
            return Err(e);
        },
    };
    match expect(tokens, p2, Token::Else) {
        Ok(_) => {},
        Err(e) => {
            return Err(e);
        },
    }
    let (other, p3) = match Expr::parse(tokens, p2 + 1) {
        Ok(found) => found,
        Err(e) => {
            return Err(e);
        },
    };
    Ok((Expr::If(Box::new(cond), Box::new(then), Box::new(other)), p3))
}

/// Reads the function whose `fn` stands at `pos`.
fn parse_fn(tokens: &Vec<Token<String>>, pos: usize) -> (r: Result<
    (Expr<String>, usize),
    LowerError,
>)
    requires
        pos < tokens.len(),
    ensures
        match r {
            Ok((e, end)) => parsed_fn(token_views(tokens@), pos as int) == Ok::<
                (NamedExpr, int),
                LowerError,
            >((e@, end as int)) && pos < end <= tokens.len(),
            Err(e) => parsed_fn(token_views(tokens@), pos as int) == Err::<
                (NamedExpr, int),
                LowerError,
            >(e),
        },
    decreases tokens.len() - pos, 2int,
{
    let param = match name_at(tokens, pos + 1) {
        Ok(name) => name,
        Err(e) => {
            return Err(e);
        },
    };
    match expect(tokens, pos + 2, Token::Colon) {
        Ok(_) => {},
        Err(e) => {
            return Err(e);
        },
    }
    let (tp, p1) = match Tp::parse(tokens, pos + 3) {
        Ok(found) => found,
        Err(e) => {
            return Err(e);
        },
    };
    match expect(tokens, p1, Token::FatArrow) {
        Ok(_) => {},
        Err(e) => {
            return Err(e);
        },
    }
    let (body, p2) = match Expr::parse(tokens, p1 + 1) {
        Ok(found) => found,
        Err(e) => {
            return Err(e);
        },
    };
    Ok((Expr::Lam { param, tp, body: Box::new(body) }, p2))
}

/// Whether a run of atoms ends at `pos`.
fn at_end_of_application(tokens: &Vec<Token<String>>, pos: usize) -> (r: bool)
    ensures
        r == ends_application(token_views(tokens@), pos as int),
{
    if pos >= tokens.len() {
        true
    } else {
        match &tokens[pos] {
            Token::In | Token::Then | Token::Else | Token::RParen => true,
            _ => false,
        }
    }
}

/// Reads the run of atoms that starts at `pos` and applies the first to the
/// others, from left to right.
pub fn parse_application(tokens: &Vec<Token<String>>, pos: usize) -> (r: Result<
    (Expr<String>, usize),
    LowerError,
>)
    ensures
        match r {
            Ok((e, end)) => parsed_application(token_views(tokens@), pos as int) == Ok::<
                (NamedExpr, int),
                LowerError,
            >((e@, end as int)) && pos < end <= tokens.len(),
            Err(e) => parsed_application(token_views(tokens@), pos as int) == Err::<
                (NamedExpr, int),
                LowerError,
            >(e),
        },
    decreases tokens.len() - pos, 2int,
{
    let ghost ts = token_views(tokens@);
    let (head, first) = match parse_atom(tokens, pos) {
        Ok(found) => found,
        Err(e) => {
            return Err(e);
        },
    };
    let mut expr = head;
    let mut at = first;
    while !at_end_of_application(tokens, at)
        invariant
            ts == token_views(tokens@),
            pos < at <= tokens.len(),
            parsed_application(ts, pos as int) == parsed_arguments(ts, at as int, expr@),
        decreases tokens.len() - at,
    {
        let (arg, next) = match parse_atom(tokens, at) {
            Ok(found) => found,
            Err(e) => {
                return Err(e);
            },
        };
        expr = Expr::App(Box::new(expr), Box::new(arg));
        at = next;
    }
    Ok((expr, at))
}

/// Reads the atom that starts at `pos`, and says where it ends.
pub fn parse_atom(tokens: &Vec<Token<String>>, pos: usize) -> (r: Result<
    (Expr<String>, usize),
    LowerError,
>)
    ensures
        match r {
            Ok((e, end)) => parsed_atom(token_views(tokens@), pos as int) == Ok::<
                (NamedExpr, int),
                LowerError,
            >((e@, end as int)) && pos < end <= tokens.len(),
            Err(e) => parsed_atom(token_views(tokens@), pos as int) == Err::<
                (NamedExpr, int),
                LowerError,
            >(e),
        },
    decreases tokens.len() - pos, 0int,
{
    if pos >= tokens.len() {
        return Err(LowerError::UnexpectedEnd);
    }
    match &tokens[pos] {
        Token::True => Ok((Expr::Bool(true), pos + 1)),
        Token::False => Ok((Expr::Bool(false), pos + 1)),
        Token::Int(n) => Ok((Expr::Nat(*n), pos + 1)),
        Token::IsZero => {
            // `iszero` is read as the function that tests its argument.
            let var: Expr<String> = Expr::Var("x".to_owned());
            assert(var@ == Expr::<Seq<char>>::Var("x"@));
            let body = Expr::IsZero(Box::new(var));
            assert(body@ == Expr::<Seq<char>>::IsZero(Box::new(Expr::Var("x"@))));
            let function = Expr::Lam { param: "x".to_owned(), tp: Tp::Nat, body: Box::new(body) };
            assert(function@ == is_zero_function());
            Ok((function, pos + 1))
        },
        Token::Pred => {
            let var: Expr<String> = Expr::Var("x".to_owned());
            assert(var@ == Expr::<Seq<char>>::Var("x"@));
            let body = Expr::Pred(Box::new(var));
            assert(body@ == Expr::<Seq<char>>::Pred(Box::new(Expr::Var("x"@))));
            let function = Expr::Lam { param: "x".to_owned(), tp: Tp::Nat, body: Box::new(body) };
            assert(function@ == pred_function());
            Ok((function, pos + 1))
        },
        Token::Ident(name) => Ok((Expr::Var(name.clone()), pos + 1)),
        Token::LParen => {
            let (inner, p1) = match Expr::parse(tokens, pos + 1) {
                Ok(found) => found,
                Err(e) => {
                    return Err(e);
                },
            };
            match expect(tokens, p1, Token::RParen) {
                Ok(_) => {},
                Err(e) => {
                    return Err(e);
                },
            }
            Ok((inner, p1 + 1))
        },
        _ => Err(LowerError::UnexpectedToken),
    }
}

/// Reads the expression that the tokens write. The expression has to use
/// them all.
pub fn parse(tokens: &Vec<Token<String>>) -> (r: Result<Expr<String>, LowerError>)
    ensures
        match r {
            Ok(e) => parsed(token_views(tokens@)) == Ok::<NamedExpr, LowerError>(e@),
            Err(e) => parsed(token_views(tokens@)) == Err::<NamedExpr, LowerError>(e),
        },
{
    match Expr::parse(tokens, 0) {
        Ok((e, end)) => if end == tokens.len() {
            Ok(e)
        } else {
            Err(LowerError::TrailingInput)
        },
        Err(e) => Err(e),
    }
}

} // verus!
