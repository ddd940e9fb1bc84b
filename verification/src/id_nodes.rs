//! Identifier-path nodes: a colon-chained identifier path (`IdGet`) that
//! terminates in a constant-or-type leaf (`CGet`). Parsing consumes left to
//! right but builds a right-nested continuation structure, whose two shapes
//! are told apart by an explicit continuation marker ([`OpIn`]).

use vstd::prelude::*;
use vstd::string::*;
use std::collections::VecDeque;

use crate::registry::{TypeRegistry, reg_contains};
use crate::skr_errors::{CustomError, CustomErrorView, ResultOption};
use crate::tokens::{Token, TokenContainer, TokenContainerView, token_views};
use crate::vars::{Parsed, lemma_token_views_skip};

verus! {

/// Spec-level image of [`CGet`].
pub struct CGetView {
    pub name: Seq<char>,
}

/// Spec-level image of [`IdGet`]: the chain of hop identifiers, in source
/// order, and the name of the terminal leaf. The chain holds at least one
/// identifier, and together with the leaf it determines the right-nested
/// continuation structure completely.
pub struct IdGetView {
    pub chain: Seq<Seq<char>>,
    pub leaf: Seq<char>,
}

/// A leaf lookup: a single identifier resolved against the type/constant
/// registry.
#[derive(Debug, PartialEq, Clone)]
pub struct CGet {
    pub name: String,
}

impl View for CGet {
    type V = CGetView;

    open spec fn view(&self) -> CGetView {
        CGetView { name: self.name@ }
    }
}

/// The continuation of an identifier hop: either another colon hop or the
/// terminal leaf.
#[derive(Debug, PartialEq)]
pub enum OpIn {
    IdGet(IdGet),
    CGet(CGet),
}

/// One identifier hop of a colon-chained path; it owns its continuation
/// outright.
#[derive(Debug, PartialEq)]
pub struct IdGet {
    pub identifier: String,
    pub op_in: Box<OpIn>,
}

impl View for IdGet {
    type V = IdGetView;

    open spec fn view(&self) -> IdGetView
        decreases self,
    {
        match *self.op_in {
            OpIn::IdGet(ref inner) => IdGetView {
                chain: seq![self.identifier@] + inner@.chain,
                leaf: inner@.leaf,
            },
            OpIn::CGet(ref c) => IdGetView { chain: seq![self.identifier@], leaf: c.name@ },
        }
    }
}

/// What [`parse_cget`] does: a front identifier registered in the
/// type/constant registry matches and is consumed; anything else leaves the
/// queue untouched.
pub open spec fn spec_parse_cget(t: Seq<TokenContainerView>, reg: Seq<Seq<char>>) -> Option<
    (CGetView, nat),
> {
    if t.len() > 0 && t[0].token is Identifier && reg_contains(reg, t[0].token->Identifier_0) {
        Some((CGetView { name: t[0].token->Identifier_0 }, 1nat))
    } else {
        None
    }
}

/// What [`IdGet::parse`] does: an identifier followed by `:` commits the
/// rule; the continuation is another chain if one matches, else a registered
/// leaf, else a hard failure.
pub open spec fn spec_parse_id_get(t: Seq<TokenContainerView>, reg: Seq<Seq<char>>) -> Parsed<
    IdGetView,
>
    decreases t.len(),
{
    if t.len() >= 2 && t[0].token is Identifier && t[1].token is Inside {
        let id = t[0].token->Identifier_0;
        let rest = t.skip(2);
        match spec_parse_id_get(rest, reg) {
            Parsed::Match(inner, c) => Parsed::Match(
                IdGetView { chain: seq![id] + inner.chain, leaf: inner.leaf },
                (2 + c) as nat,
            ),
            Parsed::Fail(e) => Parsed::Fail(e),
            Parsed::NoMatch => match spec_parse_cget(rest, reg) {
                Some((c_get, c)) => Parsed::Match(
                    IdGetView { chain: seq![id], leaf: c_get.name },
                    (2 + c) as nat,
                ),
                None => Parsed::Fail(
                    CustomErrorView::UnexpectedToken("Expected an identifier chain or a constant"@),
                ),
            },
        }
    } else {
        Parsed::NoMatch
    }
}

/// A matched chain never consumes more tokens than the queue holds.
proof fn lemma_id_get_consumed_bounds(t: Seq<TokenContainerView>, reg: Seq<Seq<char>>)
    ensures
        (match spec_parse_id_get(t, reg) {
            Parsed::Match(v, c) => c <= t.len(),
            Parsed::NoMatch => true,
            Parsed::Fail(e) => true,
        }),
    decreases t.len(),
{
    if t.len() >= 2 && t[0].token is Identifier && t[1].token is Inside {
        lemma_id_get_consumed_bounds(t.skip(2), reg);
    }
}

/// Tries to parse a leaf lookup: a front identifier matches exactly when it
/// is registered in the type/constant registry; otherwise the queue is left
/// untouched.
pub fn parse_cget(tokens: &mut VecDeque<TokenContainer>, reg: &TypeRegistry) -> (r: Option<CGet>)
    ensures
        (match spec_parse_cget(token_views(old(tokens)@), reg@) {
            None => r is None && final(tokens)@ == old(tokens)@,
            Some((cg, c)) => r matches Some(x) && x@ == cg && final(tokens)@ == old(
                tokens,
            )@.skip(c as int),
        }),
{
    if tokens.len() == 0 {
        return None;
    }
    let is_registered = match &tokens[0].token {
        Token::Identifier(identifier) => reg.is_type_def(identifier),
        _ => false,
    };
    if !is_registered {
        return None;
    }
    let tc = tokens.pop_front().unwrap();
    match tc.token {
        Token::Identifier(identifier) => Some(CGet { name: identifier }),
        _ => vstd::pervasive::unreached(),
    }
}

impl IdGet {
    /// Parses an identifier chain: `T_IDENTIFIER ':' (<id_get> | <cget>)`.
    /// The deciding prefix is the identifier and the colon together; without
    /// both, the queue is left untouched and no-match is reported.
    pub fn parse(tokens: &mut VecDeque<TokenContainer>, reg: &TypeRegistry) -> (r: ResultOption<
        IdGet,
    >)
        ensures
            (match spec_parse_id_get(token_views(old(tokens)@), reg@) {
                Parsed::NoMatch => r matches Ok(o) && o is None && final(tokens)@ == old(tokens)@,
                Parsed::Match(v, c) => r matches Ok(o) && o matches Some(g) && g@ == v && final(tokens)@ == old(tokens)@.skip(c as int),
                Parsed::Fail(e) => r matches Err(err) && err@ == e,
            }),
        decreases old(tokens)@.len(),
    {
        let ghost t0 = token_views(old(tokens)@);
        if tokens.len() < 2 {
            return Ok(None);
        }
        let starts_chain = match (&tokens[0].token, &tokens[1].token) {
            (Token::Identifier(_), Token::Inside) => true,
            _ => false,
        };
        if !starts_chain {
            return Ok(None);
        }
        let tc = tokens.pop_front().unwrap();
        let _ = tokens.pop_front().unwrap();
        proof {
            lemma_token_views_skip(old(tokens)@, 2);
            assert(old(tokens)@.skip(1).skip(1) =~= old(tokens)@.skip(2));
        }
        let identifier = match tc.token {
            Token::Identifier(identifier) => identifier,
            _ => vstd::pervasive::unreached(),
        };
        match IdGet::parse(tokens, reg) {
            Ok(Some(inner)) => {
                proof {
                    lemma_id_get_consumed_bounds(t0.skip(2), reg@);
                    let c = spec_parse_id_get(t0.skip(2), reg@)->Match_1;
                    assert(old(tokens)@.skip(2).skip(c as int) =~= old(tokens)@.skip(
                        2 + c as int,
                    ));
                }
                Ok(Some(IdGet { identifier, op_in: Box::new(OpIn::IdGet(inner)) }))
            },
            Ok(None) => {
                match parse_cget(tokens, reg) {
                    Some(c_get) => {
                        proof {
                            assert(old(tokens)@.skip(2).skip(1) =~= old(tokens)@.skip(3));
                        }
                        Ok(Some(IdGet { identifier, op_in: Box::new(OpIn::CGet(c_get)) }))
                    },
                    None => Err(
                        CustomError::UnexpectedToken(
                            String::from_str("Expected an identifier chain or a constant"),
                        ),
                    ),
                }
            },
            Err(e) => Err(e),
        }
    }
}

} // verus!
