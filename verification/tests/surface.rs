use stlcrts::evaluator::eval;
use stlcrts::lexer::{lex, LowerError, Token};
use stlcrts::lower::{index_type, lower, stlc, DBExpr};
use stlcrts::parser::{parse, Expr, Tp};
use stlcrts::tree::{Ix, Tm, Ty};
use stlcrts::typechecker::type_checks;

fn numeral(n: u64) -> Tm {
    let mut t = Tm::Zero;
    for _ in 0..n {
        t = Tm::Succ(Box::new(t));
    }
    t
}

fn name(s: &str) -> Token<String> {
    Token::Ident(s.to_string())
}

#[test]
fn lexes_words_signs_and_numbers() {
    assert_eq!(
        lex("let f = fn x: (Nat -> Bool) => x in f 12"),
        Ok(vec![
            Token::Let,
            name("f"),
            Token::Equals,
            Token::Fn,
            name("x"),
            Token::Colon,
            Token::LParen,
            name("Nat"),
            Token::Arrow,
            name("Bool"),
            Token::RParen,
            Token::FatArrow,
            name("x"),
            Token::In,
            name("f"),
            Token::Int(12),
        ])
    );
    assert_eq!(lex(""), Ok(vec![]));
    assert_eq!(lex(" \t\r\n "), Ok(vec![]));
    assert_eq!(
        lex("if(iszero)then pred else true false"),
        Ok(vec![
            Token::If,
            Token::LParen,
            Token::IsZero,
            Token::RParen,
            Token::Then,
            Token::Pred,
            Token::Else,
            Token::True,
            Token::False,
        ])
    );
    assert_eq!(lex("lets _in0 If"), Ok(vec![name("lets"), name("_in0"), name("If")]));
    assert_eq!(lex("=>=->"), Ok(vec![Token::FatArrow, Token::Equals, Token::Arrow]));
}

#[test]
fn lexes_the_largest_number_and_no_larger_one() {
    assert_eq!(lex("18446744073709551615"), Ok(vec![Token::Int(u64::MAX)]));
    assert_eq!(lex("0018"), Ok(vec![Token::Int(18)]));
    assert_eq!(lex("18446744073709551616"), Err(LowerError::NumberTooLarge));
    assert_eq!(lex("99999999999999999999999999"), Err(LowerError::NumberTooLarge));
}

#[test]
fn rejects_what_is_no_token() {
    assert_eq!(lex("12ab"), Err(LowerError::MalformedNumber));
    assert_eq!(lex("99999999999999999999999999x"), Err(LowerError::MalformedNumber));
    assert_eq!(lex("a - b"), Err(LowerError::UnexpectedCharacter));
    assert_eq!(lex("a + b"), Err(LowerError::UnexpectedCharacter));
    assert_eq!(lex("-"), Err(LowerError::UnexpectedCharacter));
    assert_eq!(lex("caf\u{e9}"), Err(LowerError::UnexpectedCharacter));
    assert_eq!(lex("12ab \u{e9}"), Err(LowerError::UnexpectedCharacter));
}

fn var(s: &str) -> Expr<String> {
    Expr::Var(s.to_string())
}

fn parsed(src: &str) -> Result<Expr<String>, LowerError> {
    parse(&lex(src).unwrap())
}

#[test]
fn application_associates_to_the_left() {
    assert_eq!(
        parsed("f a b"),
        Ok(Expr::App(
            Box::new(Expr::App(Box::new(var("f")), Box::new(var("a")))),
            Box::new(var("b"))
        ))
    );
    assert_eq!(
        parsed("f (a b)"),
        Ok(Expr::App(
            Box::new(var("f")),
            Box::new(Expr::App(Box::new(var("a")), Box::new(var("b"))))
        ))
    );
}

#[test]
fn parses_every_form() {
    assert_eq!(
        parsed("let x = 1 in if x then true else false"),
        Ok(Expr::Let {
            name: "x".to_string(),
            value: Box::new(Expr::Nat(1)),
            body: Box::new(Expr::If(
                Box::new(var("x")),
                Box::new(Expr::Bool(true)),
                Box::new(Expr::Bool(false))
            )),
        })
    );
    assert_eq!(
        parsed("fn f: (Nat -> (Bool -> Nat)) => f"),
        Ok(Expr::Lam {
            param: "f".to_string(),
            tp: Tp::Arrow(
                Box::new(Tp::Nat),
                Box::new(Tp::Arrow(Box::new(Tp::Bool), Box::new(Tp::Nat)))
            ),
            body: Box::new(var("f")),
        })
    );
}

#[test]
fn built_in_words_are_functions() {
    let is_zero = Expr::Lam {
        param: "x".to_string(),
        tp: Tp::Nat,
        body: Box::new(Expr::IsZero(Box::new(var("x")))),
    };
    let pred = Expr::Lam {
        param: "x".to_string(),
        tp: Tp::Nat,
        body: Box::new(Expr::Pred(Box::new(var("x")))),
    };
    assert_eq!(parsed("iszero"), Ok(is_zero));
    assert_eq!(parsed("pred 5"), Ok(Expr::App(Box::new(pred), Box::new(Expr::Nat(5)))));
}

#[test]
fn rejects_malformed_syntax() {
    assert_eq!(parsed(""), Err(LowerError::UnexpectedEnd));
    assert_eq!(parsed("let x = 1"), Err(LowerError::UnexpectedEnd));
    assert_eq!(parsed("let x 1 in x"), Err(LowerError::UnexpectedToken));
    assert_eq!(parsed("let 1 = 1 in x"), Err(LowerError::UnexpectedToken));
    assert_eq!(parsed("let in = 1 in x"), Err(LowerError::UnexpectedToken));
    assert_eq!(parsed("if a then b"), Err(LowerError::UnexpectedEnd));
    assert_eq!(parsed("if a b else c"), Err(LowerError::UnexpectedToken));
    assert_eq!(parsed("fn x => x"), Err(LowerError::UnexpectedToken));
    assert_eq!(parsed("fn x: Int => x"), Err(LowerError::UnexpectedToken));
    assert_eq!(parsed("fn x: Nat -> Nat => x"), Err(LowerError::UnexpectedToken));
    assert_eq!(parsed("fn x: (Nat -> Nat => x"), Err(LowerError::UnexpectedToken));
    assert_eq!(parsed("fn x: (Nat Nat) => x"), Err(LowerError::UnexpectedToken));
    assert_eq!(parsed("(a"), Err(LowerError::UnexpectedEnd));
    assert_eq!(parsed("a)"), Err(LowerError::TrailingInput));
    assert_eq!(parsed("true else"), Err(LowerError::TrailingInput));
    assert_eq!(parsed("(true else)"), Err(LowerError::UnexpectedToken));
    assert_eq!(parsed("f fn x: Nat => x"), Err(LowerError::UnexpectedToken));
    assert_eq!(parsed("f = g"), Err(LowerError::UnexpectedToken));
    assert_eq!(parsed("()"), Err(LowerError::UnexpectedToken));
}

#[test]
fn lowering_counts_binders_from_the_inside() {
    let expr = parsed("fn a: Nat => fn b: Nat => fn c: Nat => a b c").unwrap();
    let mut env = Vec::new();
    assert_eq!(
        lower(&expr, &mut env),
        Ok(DBExpr::Lam(
            Tp::Nat,
            Box::new(DBExpr::Lam(
                Tp::Nat,
                Box::new(DBExpr::Lam(
                    Tp::Nat,
                    Box::new(DBExpr::App(
                        Box::new(DBExpr::App(
                            Box::new(DBExpr::Var(2)),
                            Box::new(DBExpr::Var(1))
                        )),
                        Box::new(DBExpr::Var(0))
                    ))
                ))
            ))
        ))
    );
    assert!(env.is_empty());
}

#[test]
fn lowering_resolves_to_the_innermost_binding() {
    let expr = parsed("fn x: Nat => fn x: Bool => x").unwrap();
    let mut env = Vec::new();
    assert_eq!(
        lower(&expr, &mut env),
        Ok(DBExpr::Lam(Tp::Nat, Box::new(DBExpr::Lam(Tp::Bool, Box::new(DBExpr::Var(0))))))
    );
    let body = parsed("y x").unwrap();
    let mut env = vec!["x".to_string(), "y".to_string(), "x".to_string()];
    assert_eq!(
        lower(&body, &mut env),
        Ok(DBExpr::App(Box::new(DBExpr::Var(1)), Box::new(DBExpr::Var(0))))
    );
    assert_eq!(env, vec!["x".to_string(), "y".to_string(), "x".to_string()]);
}

#[test]
fn let_does_not_bind_its_name_in_its_value() {
    assert_eq!(stlc("let x = x in x"), Err(LowerError::UnboundVariable));
    assert_eq!(
        stlc("let x = true in let x = x in x"),
        Ok(Tm::Let(
            Box::new(Tm::True),
            Box::new(Tm::Let(Box::new(Tm::Var(Ix::Z)), Box::new(Tm::Var(Ix::Z))))
        ))
    );
}

#[test]
fn unbound_name_is_a_lowering_error() {
    assert_eq!(stlc("x"), Err(LowerError::UnboundVariable));
    assert_eq!(stlc("fn x: Nat => y"), Err(LowerError::UnboundVariable));
    assert_eq!(stlc("(fn x: Nat => x) x"), Err(LowerError::UnboundVariable));
    let mut env = vec!["y".to_string()];
    assert_eq!(lower(&var("x"), &mut env), Err(LowerError::UnboundVariable));
    assert_eq!(env, vec!["y".to_string()]);
}

#[test]
fn words_outside_the_grammar_are_plain_names() {
    assert_eq!(stlc("fix (fn f: Nat => f)"), Err(LowerError::UnboundVariable));
    assert_eq!(stlc("succ 1"), Err(LowerError::UnboundVariable));
    assert_eq!(
        stlc("fn succ: (Nat -> Nat) => succ 1"),
        Ok(Tm::Lam(
            Ty::Arrow(Box::new(Ty::Nat), Box::new(Ty::Nat)),
            Box::new(Tm::App(Box::new(Tm::Var(Ix::Z)), Box::new(numeral(1))))
        ))
    );
}

#[test]
fn index_type_builds_the_unary_index() {
    assert_eq!(index_type(0), Ix::Z);
    assert_eq!(index_type(2), Ix::S(Box::new(Ix::S(Box::new(Ix::Z)))));
}

#[test]
fn expands_numbers_to_numerals() {
    assert_eq!(DBExpr::Nat(0).expand(), Tm::Zero);
    assert_eq!(DBExpr::Nat(3).expand(), numeral(3));
    assert_eq!(stlc("3"), Ok(numeral(3)));
}

#[test]
fn integer_literal_evaluates_to_itself() {
    for n in [0u64, 1, 2, 7, 40] {
        let term = stlc(&format!("{}", n)).unwrap();
        assert_eq!(term, numeral(n));
        assert_eq!(eval(&term, 0), Ok(numeral(n)));
    }
}

#[test]
fn scenario_conditional() {
    let term = stlc("if true then false else true").unwrap();
    assert!(type_checks(&term));
    assert_eq!(eval(&term, 10), Ok(Tm::False));
}

#[test]
fn scenario_negation_applied() {
    let term = stlc("(fn b: Bool => if b then false else true) true").unwrap();
    assert_eq!(eval(&term, 10), Ok(Tm::False));
}

#[test]
fn scenario_predecessor() {
    assert_eq!(eval(&stlc("pred 5").unwrap(), 10), Ok(numeral(4)));
    assert_eq!(eval(&stlc("pred 0").unwrap(), 10), Ok(numeral(0)));
}

#[test]
fn scenario_boolean_connectives() {
    let term = stlc(
        "let not = fn b: Bool => if b then false else true in
         let and = fn a: Bool => fn b: Bool => if a then b else false in
         and true (not false)",
    )
    .unwrap();
    assert!(type_checks(&term));
    assert_eq!(eval(&term, 100), Ok(Tm::True));
}

#[test]
fn built_in_function_passed_as_an_argument() {
    let term = stlc(
        "let id = fn f: (Nat -> Bool) => fn n: Nat => f n in
         let iszerofn2 = id iszero in
         if iszerofn2 0 then 1 else 2",
    )
    .unwrap();
    assert!(type_checks(&term));
    assert_eq!(eval(&term, 100), Ok(numeral(1)));
    assert_eq!(eval(&stlc("iszero 0").unwrap(), 10), Ok(Tm::True));
    assert_eq!(eval(&stlc("iszero 3").unwrap(), 10), Ok(Tm::False));
}
