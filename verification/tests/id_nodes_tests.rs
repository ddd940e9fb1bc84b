use std::collections::VecDeque;

use skribi::id_nodes::{parse_cget, CGet, IdGet, OpIn};
use skribi::registry::TypeRegistry;
use skribi::skr_errors::ResultOption;
use skribi::tokens::{Token, TokenContainer};

fn registry_with_dar() -> TypeRegistry {
    let mut reg = TypeRegistry::new();
    reg.register(String::from("dar"));
    reg
}

#[test]
fn test_id_simple() {
    let c_get_1 = CGet {
        name: String::from("hello"),
    };
    let c_get_2 = CGet {
        name: String::from("world"),
    };

    assert_ne!(c_get_1, c_get_2);

    let c_get_3 = CGet {
        name: String::from("hello"),
    };

    assert_eq!(c_get_1, c_get_3);
}

#[test]
fn test_parse_id_simple() {
    let reg = registry_with_dar();

    // Hello is not a "type def"

    let mut tokens: VecDeque<_> = vec![Token::Identifier(String::from("hello"))]
        .into_iter()
        .map(|x| TokenContainer::new(x, 0, 0))
        .collect();
    let c_get = parse_cget(&mut tokens, &reg);

    assert_eq!(None, c_get);

    // dar is a "type def"

    let mut tokens: VecDeque<_> = vec![Token::Identifier(String::from("dar"))]
        .into_iter()
        .map(|x| TokenContainer::new(x, 0, 0))
        .collect();
    let c_get = parse_cget(&mut tokens, &reg).unwrap();

    assert_eq!(
        CGet {
            name: String::from("dar")
        },
        c_get
    );
}

#[test]
fn test_parse_set_maxi() {
    // test with "maxi:mini:hello:dar"

    let reg = registry_with_dar();
    let mut tokens: VecDeque<_> = vec![
        Token::Identifier(String::from("maxi")),
        Token::Inside,
        Token::Identifier(String::from("mini")),
        Token::Inside,
        Token::Identifier(String::from("hello")),
        Token::Inside,
        Token::Identifier(String::from("dar")),
    ]
    .into_iter()
    .map(|x| TokenContainer::new(x, 0, 0))
    .collect();

    let res = IdGet::parse(&mut tokens, &reg);
    let expected: ResultOption<IdGet> = Ok(Some(IdGet {
        identifier: String::from("maxi"),
        op_in: Box::new(OpIn::IdGet(IdGet {
            identifier: String::from("mini"),
            op_in: Box::new(OpIn::IdGet(IdGet {
                identifier: String::from("hello"),
                op_in: Box::new(OpIn::CGet(CGet {
                    name: String::from("dar"),
                })),
            })),
        })),
    }));

    assert_eq!(expected, res);
}

#[test]
fn test_parse_set_mini() {
    // test with "mini:hello:dar"

    let reg = registry_with_dar();
    let mut tokens: VecDeque<_> = vec![
        Token::Identifier(String::from("mini")),
        Token::Inside,
        Token::Identifier(String::from("hello")),
        Token::Inside,
        Token::Identifier(String::from("dar")),
    ]
    .into_iter()
    .map(|x| TokenContainer::new(x, 0, 0))
    .collect();

    let res = IdGet::parse(&mut tokens, &reg);
    let expected: ResultOption<IdGet> = Ok(Some(IdGet {
        identifier: String::from("mini"),
        op_in: Box::new(OpIn::IdGet(IdGet {
            identifier: String::from("hello"),
            op_in: Box::new(OpIn::CGet(CGet {
                name: String::from("dar"),
            })),
        })),
    }));

    assert_eq!(expected, res);
}

#[test]
fn test_parse_id_chain_unregistered_leaf_fails() {
    // after "maxi:" the rule is committed; "bob" is neither a chain nor a
    // registered leaf
    let reg = registry_with_dar();
    let mut tokens: VecDeque<_> = vec![
        Token::Identifier(String::from("maxi")),
        Token::Inside,
        Token::Identifier(String::from("bob")),
    ]
    .into_iter()
    .map(|x| TokenContainer::new(x, 0, 0))
    .collect();

    let res = IdGet::parse(&mut tokens, &reg);
    assert!(res.is_err());
}

#[test]
fn test_parse_id_no_colon_is_no_match() {
    let reg = registry_with_dar();
    let mut tokens: VecDeque<_> = vec![Token::Identifier(String::from("maxi"))]
        .into_iter()
        .map(|x| TokenContainer::new(x, 0, 0))
        .collect();

    let res = IdGet::parse(&mut tokens, &reg);
    assert_eq!(Ok(None), res);
    assert_eq!(1, tokens.len());
}
