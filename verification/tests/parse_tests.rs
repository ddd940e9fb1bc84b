use std::collections::VecDeque;

use skribi::expressions::Exp;
use skribi::lexer::tokenize;
use skribi::registry::TypeRegistry;
use skribi::skr_errors::CustomError;
use skribi::tokens::{Token, TokenContainer};
use skribi::vars::{parse_type, ConstVar, GlobalVar, PrivateVar, Type, VarDec, VarMod, Vd};

fn tokens_of(source: &str) -> VecDeque<TokenContainer> {
    tokenize(String::from(source)).unwrap()
}

fn vd(declared_type: &str, identifier: &str, exp: Exp) -> Vd {
    Vd::new(
        Type {
            name: String::from(declared_type),
        },
        String::from(identifier),
        exp,
    )
}

#[test]
fn test_parse_type_unregistered_is_no_match() {
    // an identifier not present in the registry: no-match, queue unchanged
    let reg = TypeRegistry::new();
    let mut tokens: VecDeque<_> = vec![Token::Identifier(String::from("hello"))]
        .into_iter()
        .map(|x| TokenContainer::new(x, 0, 0))
        .collect();
    let before = tokens.clone();
    assert_eq!(None, parse_type(&mut tokens, &reg));
    assert_eq!(before, tokens);
}

#[test]
fn test_parse_type_registered() {
    let reg = TypeRegistry::new();
    let mut tokens = tokens_of("int x");
    let ty = parse_type(&mut tokens, &reg);
    assert_eq!(
        Some(Type {
            name: String::from("int")
        }),
        ty
    );
    assert_eq!(1, tokens.len());
}

#[test]
fn test_parse_const_var_order() {
    // `ju fu int x 5` resolves as ConstVar(GlobalVar(Vd))
    let reg = TypeRegistry::new();
    let mut tokens = tokens_of("ju fu int x 5");
    let res = VarDec::parse(&mut tokens, &reg);
    let expected = Ok(Some(VarDec::ConstVar(ConstVar::GlobalVar(
        GlobalVar::new(vd("int", "x", Exp::Int(String::from("5")))),
    ))));
    assert_eq!(expected, res);
    assert_eq!(0, tokens.len());
}

#[test]
fn test_parse_const_private_var() {
    let reg = TypeRegistry::new();
    let mut tokens = tokens_of("ju pu bool b io");
    let res = VarDec::parse(&mut tokens, &reg);
    let expected = Ok(Some(VarDec::ConstVar(ConstVar::PrivateVar(
        PrivateVar::new(vd("bool", "b", Exp::Bool(true))),
    ))));
    assert_eq!(expected, res);
}

#[test]
fn test_parse_private_var() {
    // `pu int x 5` produces PrivateVar(Vd{int, x, 5})
    let reg = TypeRegistry::new();
    let mut tokens = tokens_of("pu int x 5");
    let res = VarDec::parse(&mut tokens, &reg);
    let expected = Ok(Some(VarDec::PrivateVar(PrivateVar::new(vd(
        "int",
        "x",
        Exp::Int(String::from("5")),
    )))));
    assert_eq!(expected, res);
}

#[test]
fn test_parse_plain_vd() {
    let reg = TypeRegistry::new();
    let mut tokens = tokens_of("string s \"hi\"");
    let res = VarDec::parse(&mut tokens, &reg);
    let expected = Ok(Some(VarDec::Vd(vd(
        "string",
        "s",
        Exp::String(String::from("hi")),
    ))));
    assert_eq!(expected, res);
}

#[test]
fn test_parse_var_dec_no_match_leaves_queue() {
    let reg = TypeRegistry::new();
    let mut tokens = tokens_of("+ 5");
    let before = tokens.clone();
    assert_eq!(Ok(None), VarDec::parse(&mut tokens, &reg));
    assert_eq!(before, tokens);
}

#[test]
fn test_parse_committed_failure_missing_declaration() {
    // after `ju` the rule is committed: nothing following is a hard error
    let reg = TypeRegistry::new();
    let mut tokens = tokens_of("ju");
    let res = VarDec::parse(&mut tokens, &reg);
    assert_eq!(
        Err(CustomError::UnexpectedToken(String::from(
            "Expected a variable declaration"
        ))),
        res
    );
}

#[test]
fn test_parse_committed_failure_missing_identifier() {
    let reg = TypeRegistry::new();
    let mut tokens = tokens_of("int");
    let res = VarDec::parse(&mut tokens, &reg);
    assert_eq!(
        Err(CustomError::UnexpectedToken(String::from(
            "Expected an identifier"
        ))),
        res
    );
}

#[test]
fn test_parse_committed_failure_missing_expression() {
    let reg = TypeRegistry::new();
    let mut tokens = tokens_of("int x");
    let res = VarDec::parse(&mut tokens, &reg);
    assert_eq!(
        Err(CustomError::UnexpectedToken(String::from(
            "Expected an expression"
        ))),
        res
    );
}

#[test]
fn test_parse_var_mod() {
    let mut tokens = tokens_of("3.5");
    let res = VarMod::parse(&mut tokens);
    assert_eq!(
        Ok(Some(VarMod::new(Exp::Float(String::from("3.5"))))),
        res
    );

    let mut tokens = tokens_of("}");
    assert_eq!(Ok(None), VarMod::parse(&mut tokens));
    assert_eq!(1, tokens.len());
}

#[test]
fn test_parse_exp_literals() {
    let mut tokens = tokens_of("no");
    assert_eq!(Ok(Some(Exp::Bool(false))), Exp::parse(&mut tokens));

    let mut tokens: VecDeque<TokenContainer> = VecDeque::new();
    assert_eq!(Ok(None), Exp::parse(&mut tokens));
}

#[test]
fn test_registry_registration() {
    let mut reg = TypeRegistry::new();
    assert!(reg.is_type_def(&String::from("string")));
    assert!(reg.is_type_def(&String::from("null")));
    assert!(!reg.is_type_def(&String::from("dar")));
    reg.register(String::from("dar"));
    assert!(reg.is_type_def(&String::from("dar")));
}
