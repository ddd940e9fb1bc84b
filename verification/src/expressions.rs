//! Expression nodes. The expression grammar is still a stub: an expression
//! is a single literal token (boolean, numeric or string); anything richer
//! is left for a future grammar extension.

use vstd::prelude::*;
use std::collections::VecDeque;

use crate::skr_errors::ResultOption;
use crate::tokens::{Token, TokenContainer, TokenContainerView, TokenView, token_views};

verus! {

/// Spec-level image of [`Exp`].
pub enum ExpView {
    Bool(bool),
    Int(Seq<char>),
    Float(Seq<char>),
    String(Seq<char>),
}

/// A literal expression: the payload of a variable declaration or
/// modification. Numeric literals carry their digit text.
#[derive(Debug, PartialEq, Clone)]
pub enum Exp {
    Bool(bool),
    Int(String),
    Float(String),
    String(String),
}

impl View for Exp {
    type V = ExpView;

    open spec fn view(&self) -> ExpView {
        match self {
            Exp::Bool(b) => ExpView::Bool(*b),
            Exp::Int(s) => ExpView::Int(s@),
            Exp::Float(s) => ExpView::Float(s@),
            Exp::String(s) => ExpView::String(s@),
        }
    }
}

/// What parsing an expression does to a token sequence: a front literal
/// token matches and is consumed; anything else is a no-match.
pub open spec fn spec_parse_exp(t: Seq<TokenContainerView>) -> Option<(ExpView, nat)> {
    if t.len() > 0 {
        match t[0].token {
            TokenView::Bool(b) => Some((ExpView::Bool(b), 1nat)),
            TokenView::Int(s) => Some((ExpView::Int(s), 1nat)),
            TokenView::Float(s) => Some((ExpView::Float(s), 1nat)),
            TokenView::String(s) => Some((ExpView::String(s), 1nat)),
            _ => None,
        }
    } else {
        None
    }
}

impl Exp {
    /// Tries to parse an expression off the front of the queue: a literal
    /// token matches; on no-match the queue is left untouched. This rule
    /// never hard-fails.
    pub fn parse(tokens: &mut VecDeque<TokenContainer>) -> (r: ResultOption<Exp>)
        ensures
            (match spec_parse_exp(token_views(old(tokens)@)) {
                None => r matches Ok(o) && o is None && final(tokens)@ == old(tokens)@,
                Some((e, c)) => r matches Ok(o) && o matches Some(exp) && exp@ == e && final(tokens)@
                    == old(tokens)@.skip(c as int),
            }),
    {
        if tokens.len() == 0 {
            return Ok(None);
        }
        let is_literal = match &tokens[0].token {
            Token::Bool(_) => true,
            Token::Int(_) => true,
            Token::Float(_) => true,
            Token::String(_) => true,
            _ => false,
        };
        if !is_literal {
            return Ok(None);
        }
        let tc = tokens.pop_front().unwrap();
        match tc.token {
            Token::Bool(b) => Ok(Some(Exp::Bool(b))),
            Token::Int(s) => Ok(Some(Exp::Int(s))),
            Token::Float(s) => Ok(Some(Exp::Float(s))),
            Token::String(s) => Ok(Some(Exp::String(s))),
            _ => vstd::pervasive::unreached(),
        }
    }
}

} // verus!
