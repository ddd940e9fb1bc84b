//! Variable-declaration nodes of the AST and their parse rules.
//!
//! Grammar of this module:
//!
//! ```text
//! <type>        ::= T_TYPE_DEF
//! <vd>          ::= <type> T_IDENTIFIER <exp>
//! <global_var>  ::= fu <vd>
//! <private_var> ::= pu <vd>
//! <const_var>   ::= ju (<private_var> | <global_var> | <vd>)
//! <var_dec>     ::= <const_var> | <private_var> | <global_var> | <vd>
//! <var_mod>     ::= <exp>
//! ```
//!
//! Every rule follows the committed-choice contract: it either consumes a
//! non-empty prefix and returns a node, leaves the queue untouched and
//! reports no-match, or hard-fails after having committed. The spec
//! functions `spec_parse_*` are the reference model of each rule.

use vstd::prelude::*;
use vstd::string::*;
use std::collections::VecDeque;

use crate::expressions::{Exp, ExpView, spec_parse_exp};
use crate::registry::{TypeRegistry, reg_contains};
use crate::skr_errors::{CustomError, CustomErrorView, ResultOption};
use crate::tokens::{ModifierKeyword, Token, TokenContainer, TokenContainerView, TokenView,
    token_views};

verus! {

/// Outcome of a spec-level parse rule: no-match with the cursor conceptually
/// unchanged, a match with the node value and the number of consumed tokens,
/// or a hard failure after the rule committed.
pub enum Parsed<V> {
    NoMatch,
    Match(V, nat),
    Fail(CustomErrorView),
}

/// Composition of `token_views` with dropping a consumed prefix.
pub proof fn lemma_token_views_skip(s: Seq<TokenContainer>, n: int)
    requires
        0 <= n <= s.len(),
    ensures
        token_views(s.skip(n)) == token_views(s).skip(n),
{
    assert(token_views(s.skip(n)) =~= token_views(s).skip(n));
}

// ------------
// --- Type ---
// ------------

/// Spec-level image of [`Type`].
pub struct TypeView {
    pub name: Seq<char>,
}

/// A defined type in the AST: an identifier that resolved against the type
/// registry at parse time.
#[derive(Debug, PartialEq, Clone)]
pub struct Type {
    pub name: String,
}

impl View for Type {
    type V = TypeView;

    open spec fn view(&self) -> TypeView {
        TypeView { name: self.name@ }
    }
}

/// What [`parse_type`] does: a front identifier registered in the type
/// registry matches and is consumed; any other front (or an empty queue) is
/// a no-match.
pub open spec fn spec_parse_type(t: Seq<TokenContainerView>, reg: Seq<Seq<char>>) -> Option<
    (TypeView, nat),
> {
    if t.len() > 0 && t[0].token is Identifier && reg_contains(reg, t[0].token->Identifier_0) {
        Some((TypeView { name: t[0].token->Identifier_0 }, 1nat))
    } else {
        None
    }
}

/// Tries to parse a type name: a front identifier is a `Type` node exactly
/// when it is registered in the live type registry; otherwise the queue is
/// left byte-for-byte untouched and no-match is reported.
pub fn parse_type(tokens: &mut VecDeque<TokenContainer>, reg: &TypeRegistry) -> (r: Option<Type>)
    ensures
        (match spec_parse_type(token_views(old(tokens)@), reg@) {
            None => r is None && final(tokens)@ == old(tokens)@,
            Some((ty, c)) => r matches Some(x) && x@ == ty && final(tokens)@ == old(
                tokens,
            )@.skip(c as int),
        }),
{
    if tokens.len() == 0 {
        return None;
    }
    let is_registered = match &tokens[0].token {
        Token::Identifier(identifier) => reg.is_type_def(identifier),
        _ => false,
    };
    if !is_registered {
        return None;
    }
    let tc = tokens.pop_front().unwrap();
    match tc.token {
        Token::Identifier(identifier) => Some(Type { name: identifier }),
        _ => vstd::pervasive::unreached(),
    }
}

// ----------
// --- Vd ---
// ----------

/// Spec-level image of [`Vd`].
pub struct VdView {
    pub type_: TypeView,
    pub identifier: Seq<char>,
    pub exp: ExpView,
}

/// A variable declaration in the AST: a type, an identifier and an
/// expression.
#[derive(Debug, PartialEq, Clone)]
pub struct Vd {
    pub type_: Type,
    pub identifier: String,
    pub exp: Box<Exp>,
}

impl View for Vd {
    type V = VdView;

    open spec fn view(&self) -> VdView {
        VdView { type_: self.type_@, identifier: self.identifier@, exp: (*self.exp)@ }
    }
}

/// What [`Vd::parse`] does: no type at the front is a no-match; after the
/// type the rule is committed, and a missing identifier or expression is a
/// hard failure.
pub open spec fn spec_parse_vd(t: Seq<TokenContainerView>, reg: Seq<Seq<char>>) -> Parsed<
    VdView,
> {
    match spec_parse_type(t, reg) {
        None => Parsed::NoMatch,
        Some((ty, n)) => {
            let rest = t.skip(1);
            if rest.len() > 0 && rest[0].token is Identifier {
                match spec_parse_exp(t.skip(2)) {
                    Some((e, c)) => Parsed::Match(
                        VdView { type_: ty, identifier: rest[0].token->Identifier_0, exp: e },
                        (2 + c) as nat,
                    ),
                    None => Parsed::Fail(
                        CustomErrorView::UnexpectedToken("Expected an expression"@),
                    ),
                }
            } else {
                Parsed::Fail(CustomErrorView::UnexpectedToken("Expected an identifier"@))
            }
        },
    }
}

impl Vd {
    pub fn new(type_: Type, identifier: String, exp: Exp) -> (r: Self)
        ensures
            r@ == (VdView { type_: type_@, identifier: identifier@, exp: exp@ }),
    {
        Self { type_, identifier, exp: Box::new(exp) }
    }

    /// Parses `<vd> ::= <type> T_IDENTIFIER <exp>`.
    pub fn parse(tokens: &mut VecDeque<TokenContainer>, reg: &TypeRegistry) -> (r: ResultOption<
        Vd,
    >)
        ensures
            (match spec_parse_vd(token_views(old(tokens)@), reg@) {
                Parsed::NoMatch => r matches Ok(o) && o is None && final(tokens)@ == old(tokens)@,
                Parsed::Match(v, c) => r matches Ok(o) && o matches Some(vd) && vd@ == v && final(tokens)@ == old(tokens)@.skip(c as int),
                Parsed::Fail(e) => r matches Err(err) && err@ == e,
            }),
    {
        let ghost t0 = token_views(old(tokens)@);
        let type_ = match parse_type(tokens, reg) {
            Some(type_) => type_,
            None => {
                return Ok(None);
            },
        };
        proof {
            lemma_token_views_skip(old(tokens)@, 1);
        }
        if tokens.len() == 0 {
            return Err(CustomError::UnexpectedToken(String::from_str("Expected an identifier")));
        }
        let tc = tokens.pop_front().unwrap();
        proof {
            lemma_token_views_skip(old(tokens)@, 2);
            assert(old(tokens)@.skip(1).skip(1) =~= old(tokens)@.skip(2));
        }
        match tc.token {
            Token::Identifier(identifier) => {
                match Exp::parse(tokens) {
                    Ok(Some(exp0)) => {
                        proof {
                            let c = spec_parse_exp(t0.skip(2))->Some_0.1;
                            assert(old(tokens)@.skip(2).skip(c as int) =~= old(tokens)@.skip(
                                2 + c as int,
                            ));
                        }
                        Ok(Some(Vd::new(type_, identifier, exp0)))
                    },
                    Ok(None) => Err(
                        CustomError::UnexpectedToken(String::from_str("Expected an expression")),
                    ),
                    Err(_) => vstd::pervasive::unreached(),
                }
            },
            _ => Err(CustomError::UnexpectedToken(String::from_str("Expected an identifier"))),
        }
    }
}

// --------------------------------
// --- GlobalVar and PrivateVar ---
// --------------------------------

/// Spec-level image of [`GlobalVar`].
pub struct GlobalVarView {
    pub vd: VdView,
}

/// Spec-level image of [`PrivateVar`].
pub struct PrivateVarView {
    pub vd: VdView,
}

/// A global variable declaration: `fu` followed by a variable declaration.
#[derive(Debug, PartialEq, Clone)]
pub struct GlobalVar {
    pub vd: Vd,
}

/// A private variable declaration: `pu` followed by a variable declaration.
#[derive(Debug, PartialEq, Clone)]
pub struct PrivateVar {
    pub vd: Vd,
}

impl View for GlobalVar {
    type V = GlobalVarView;

    open spec fn view(&self) -> GlobalVarView {
        GlobalVarView { vd: self.vd@ }
    }
}

impl View for PrivateVar {
    type V = PrivateVarView;

    open spec fn view(&self) -> PrivateVarView {
        PrivateVarView { vd: self.vd@ }
    }
}

/// What [`GlobalVar::parse`] does: committed once the `fu` keyword is
/// consumed.
pub open spec fn spec_parse_global_var(t: Seq<TokenContainerView>, reg: Seq<Seq<char>>) -> Parsed<
    GlobalVarView,
> {
    if t.len() > 0 && t[0].token == TokenView::KeywordModifier(ModifierKeyword::Global) {
        match spec_parse_vd(t.skip(1), reg) {
            Parsed::Match(vd, c) => Parsed::Match(GlobalVarView { vd }, (1 + c) as nat),
            Parsed::NoMatch => Parsed::Fail(
                CustomErrorView::UnexpectedToken("Expected a variable declaration"@),
            ),
            Parsed::Fail(e) => Parsed::Fail(e),
        }
    } else {
        Parsed::NoMatch
    }
}

/// What [`PrivateVar::parse`] does: committed once the `pu` keyword is
/// consumed.
pub open spec fn spec_parse_private_var(t: Seq<TokenContainerView>, reg: Seq<Seq<char>>) -> Parsed<
    PrivateVarView,
> {
    if t.len() > 0 && t[0].token == TokenView::KeywordModifier(ModifierKeyword::Private) {
        match spec_parse_vd(t.skip(1), reg) {
            Parsed::Match(vd, c) => Parsed::Match(PrivateVarView { vd }, (1 + c) as nat),
            Parsed::NoMatch => Parsed::Fail(
                CustomErrorView::UnexpectedToken("Expected a variable declaration"@),
            ),
            Parsed::Fail(e) => Parsed::Fail(e),
        }
    } else {
        Parsed::NoMatch
    }
}

impl GlobalVar {
    pub fn new(vd: Vd) -> (r: Self)
        ensures
            r@ == (GlobalVarView { vd: vd@ }),
    {
        Self { vd }
    }

    /// Parses `<global_var> ::= fu <vd>`.
    pub fn parse(tokens: &mut VecDeque<TokenContainer>, reg: &TypeRegistry) -> (r: ResultOption<
        GlobalVar,
    >)
        ensures
            (match spec_parse_global_var(token_views(old(tokens)@), reg@) {
                Parsed::NoMatch => r matches Ok(o) && o is None && final(tokens)@ == old(tokens)@,
                Parsed::Match(v, c) => r matches Ok(o) && o matches Some(g) && g@ == v && final(tokens)@ == old(tokens)@.skip(c as int),
                Parsed::Fail(e) => r matches Err(err) && err@ == e,
            }),
    {
        let ghost t0 = token_views(old(tokens)@);
        if tokens.len() == 0 {
            return Ok(None);
        }
        let is_global = match &tokens[0].token {
            Token::KeywordModifier(ModifierKeyword::Global) => true,
            _ => false,
        };
        if !is_global {
            return Ok(None);
        }
        let _ = tokens.pop_front().unwrap();
        proof {
            lemma_token_views_skip(old(tokens)@, 1);
        }
        match Vd::parse(tokens, reg) {
            Ok(Some(vd)) => {
                proof {
                    let c = spec_parse_vd(t0.skip(1), reg@)->Match_1;
                    assert(old(tokens)@.skip(1).skip(c as int) =~= old(tokens)@.skip(
                        1 + c as int,
                    ));
                }
                Ok(Some(GlobalVar::new(vd)))
            },
            Ok(None) => Err(
                CustomError::UnexpectedToken(
                    String::from_str("Expected a variable declaration"),
                ),
            ),
            Err(e) => Err(e),
        }
    }
}

impl PrivateVar {
    pub fn new(vd: Vd) -> (r: Self)
        ensures
            r@ == (PrivateVarView { vd: vd@ }),
    {
        Self { vd }
    }

    /// Parses `<private_var> ::= pu <vd>`.
    pub fn parse(tokens: &mut VecDeque<TokenContainer>, reg: &TypeRegistry) -> (r: ResultOption<
        PrivateVar,
    >)
        ensures
            (match spec_parse_private_var(token_views(old(tokens)@), reg@) {
                Parsed::NoMatch => r matches Ok(o) && o is None && final(tokens)@ == old(tokens)@,
                Parsed::Match(v, c) => r matches Ok(o) && o matches Some(p) && p@ == v && final(tokens)@ == old(tokens)@.skip(c as int),
                Parsed::Fail(e) => r matches Err(err) && err@ == e,
            }),
    {
        let ghost t0 = token_views(old(tokens)@);
        if tokens.len() == 0 {
            return Ok(None);
        }
        let is_private = match &tokens[0].token {
            Token::KeywordModifier(ModifierKeyword::Private) => true,
            _ => false,
        };
        if !is_private {
            return Ok(None);
        }
        let _ = tokens.pop_front().unwrap();
        proof {
            lemma_token_views_skip(old(tokens)@, 1);
        }
        match Vd::parse(tokens, reg) {
            Ok(Some(vd)) => {
                proof {
                    let c = spec_parse_vd(t0.skip(1), reg@)->Match_1;
                    assert(old(tokens)@.skip(1).skip(c as int) =~= old(tokens)@.skip(
                        1 + c as int,
                    ));
                }
                Ok(Some(PrivateVar::new(vd)))
            },
            Ok(None) => Err(
                CustomError::UnexpectedToken(
                    String::from_str("Expected a variable declaration"),
                ),
            ),
            Err(e) => Err(e),
        }
    }
}

// ----------------
// --- ConstVar ---
// ----------------

/// Spec-level image of [`ConstVar`].
pub enum ConstVarView {
    PrivateVar(PrivateVarView),
    GlobalVar(GlobalVarView),
    Vd(VdView),
}

/// A constant variable declaration: `ju` wrapping a private, global or plain
/// variable declaration.
#[derive(Debug, PartialEq, Clone)]
pub enum ConstVar {
    PrivateVar(PrivateVar),
    GlobalVar(GlobalVar),
    Vd(Vd),
}

impl View for ConstVar {
    type V = ConstVarView;

    open spec fn view(&self) -> ConstVarView {
        match self {
            ConstVar::PrivateVar(p) => ConstVarView::PrivateVar(p@),
            ConstVar::GlobalVar(g) => ConstVarView::GlobalVar(g@),
            ConstVar::Vd(vd) => ConstVarView::Vd(vd@),
        }
    }
}

/// What [`ConstVar::parse`] does: after the `ju` keyword it tries
/// `<private_var>`, then `<global_var>`, then plain `<vd>`, in that fixed
/// order; a hard failure of any alternative propagates without retrying a
/// sibling.
pub open spec fn spec_parse_const_var(t: Seq<TokenContainerView>, reg: Seq<Seq<char>>) -> Parsed<
    ConstVarView,
> {
    if t.len() > 0 && t[0].token == TokenView::KeywordModifier(ModifierKeyword::Constant) {
        let rest = t.skip(1);
        match spec_parse_private_var(rest, reg) {
            Parsed::Match(p, c) => Parsed::Match(ConstVarView::PrivateVar(p), (1 + c) as nat),
            Parsed::Fail(e) => Parsed::Fail(e),
            Parsed::NoMatch => match spec_parse_global_var(rest, reg) {
                Parsed::Match(g, c) => Parsed::Match(ConstVarView::GlobalVar(g), (1 + c) as nat),
                Parsed::Fail(e) => Parsed::Fail(e),
                Parsed::NoMatch => match spec_parse_vd(rest, reg) {
                    Parsed::Match(vd, c) => Parsed::Match(ConstVarView::Vd(vd), (1 + c) as nat),
                    Parsed::Fail(e) => Parsed::Fail(e),
                    Parsed::NoMatch => Parsed::Fail(
                        CustomErrorView::UnexpectedToken("Expected a variable declaration"@),
                    ),
                },
            },
        }
    } else {
        Parsed::NoMatch
    }
}

impl ConstVar {
    pub fn new(vd: Vd) -> (r: Self)
        ensures
            r@ == ConstVarView::Vd(vd@),
    {
        ConstVar::Vd(vd)
    }

    /// Parses `<const_var> ::= ju (<private_var> | <global_var> | <vd>)`.
    pub fn parse(tokens: &mut VecDeque<TokenContainer>, reg: &TypeRegistry) -> (r: ResultOption<
        ConstVar,
    >)
        ensures
            (match spec_parse_const_var(token_views(old(tokens)@), reg@) {
                Parsed::NoMatch => r matches Ok(o) && o is None && final(tokens)@ == old(tokens)@,
                Parsed::Match(v, c) => r matches Ok(o) && o matches Some(cv) && cv@ == v && final(tokens)@ == old(tokens)@.skip(c as int),
                Parsed::Fail(e) => r matches Err(err) && err@ == e,
            }),
    {
        let ghost t0 = token_views(old(tokens)@);
        if tokens.len() == 0 {
            return Ok(None);
        }
        let is_constant = match &tokens[0].token {
            Token::KeywordModifier(ModifierKeyword::Constant) => true,
            _ => false,
        };
        if !is_constant {
            return Ok(None);
        }
        let _ = tokens.pop_front().unwrap();
        proof {
            lemma_token_views_skip(old(tokens)@, 1);
        }
        let ghost rest = t0.skip(1);
        match PrivateVar::parse(tokens, reg) {
            Ok(Some(private_var)) => {
                proof {
                    let c = spec_parse_private_var(rest, reg@)->Match_1;
                    assert(old(tokens)@.skip(1).skip(c as int) =~= old(tokens)@.skip(
                        1 + c as int,
                    ));
                }
                return Ok(Some(ConstVar::PrivateVar(private_var)));
            },
            Ok(None) => {},
            Err(e) => {
                return Err(e);
            },
        }
        match GlobalVar::parse(tokens, reg) {
            Ok(Some(global_var)) => {
                proof {
                    let c = spec_parse_global_var(rest, reg@)->Match_1;
                    assert(old(tokens)@.skip(1).skip(c as int) =~= old(tokens)@.skip(
                        1 + c as int,
                    ));
                }
                return Ok(Some(ConstVar::GlobalVar(global_var)));
            },
            Ok(None) => {},
            Err(e) => {
                return Err(e);
            },
        }
        match Vd::parse(tokens, reg) {
            Ok(Some(vd)) => {
                proof {
                    let c = spec_parse_vd(rest, reg@)->Match_1;
                    assert(old(tokens)@.skip(1).skip(c as int) =~= old(tokens)@.skip(
                        1 + c as int,
                    ));
                }
                Ok(Some(ConstVar::Vd(vd)))
            },
            Ok(None) => Err(
                CustomError::UnexpectedToken(
                    String::from_str("Expected a variable declaration"),
                ),
            ),
            Err(e) => Err(e),
        }
    }
}

// --------------
// --- VarDec ---
// --------------

/// Spec-level image of [`VarDec`].
pub enum VarDecView {
    ConstVar(ConstVarView),
    PrivateVar(PrivateVarView),
    GlobalVar(GlobalVarView),
    Vd(VdView),
}

/// Any kind of variable declaration: the root node of a declaration.
#[derive(Debug, PartialEq, Clone)]
pub enum VarDec {
    ConstVar(ConstVar),
    PrivateVar(PrivateVar),
    GlobalVar(GlobalVar),
    Vd(Vd),
}

impl View for VarDec {
    type V = VarDecView;

    open spec fn view(&self) -> VarDecView {
        match self {
            VarDec::ConstVar(c) => VarDecView::ConstVar(c@),
            VarDec::PrivateVar(p) => VarDecView::PrivateVar(p@),
            VarDec::GlobalVar(g) => VarDecView::GlobalVar(g@),
            VarDec::Vd(vd) => VarDecView::Vd(vd@),
        }
    }
}

/// What [`VarDec::parse`] does: tries `<const_var>`, then `<private_var>`,
/// then `<global_var>`, then `<vd>`, in that fixed order; the alternatives'
/// deciding prefixes are disjoint, so the order never creates ambiguity.
pub open spec fn spec_parse_var_dec(t: Seq<TokenContainerView>, reg: Seq<Seq<char>>) -> Parsed<
    VarDecView,
> {
    match spec_parse_const_var(t, reg) {
        Parsed::Match(c, n) => Parsed::Match(VarDecView::ConstVar(c), n),
        Parsed::Fail(e) => Parsed::Fail(e),
        Parsed::NoMatch => match spec_parse_private_var(t, reg) {
            Parsed::Match(p, n) => Parsed::Match(VarDecView::PrivateVar(p), n),
            Parsed::Fail(e) => Parsed::Fail(e),
            Parsed::NoMatch => match spec_parse_global_var(t, reg) {
                Parsed::Match(g, n) => Parsed::Match(VarDecView::GlobalVar(g), n),
                Parsed::Fail(e) => Parsed::Fail(e),
                Parsed::NoMatch => match spec_parse_vd(t, reg) {
                    Parsed::Match(vd, n) => Parsed::Match(VarDecView::Vd(vd), n),
                    Parsed::Fail(e) => Parsed::Fail(e),
                    Parsed::NoMatch => Parsed::NoMatch,
                },
            },
        },
    }
}

impl VarDec {
    /// Parses `<var_dec> ::= <const_var> | <private_var> | <global_var> |
    /// <vd>`; at the top level an unmatched queue is a legitimate no-match,
    /// not an error.
    pub fn parse(tokens: &mut VecDeque<TokenContainer>, reg: &TypeRegistry) -> (r: ResultOption<
        VarDec,
    >)
        ensures
            (match spec_parse_var_dec(token_views(old(tokens)@), reg@) {
                Parsed::NoMatch => r matches Ok(o) && o is None && final(tokens)@ == old(tokens)@,
                Parsed::Match(v, c) => r matches Ok(o) && o matches Some(d) && d@ == v && final(tokens)@ == old(tokens)@.skip(c as int),
                Parsed::Fail(e) => r matches Err(err) && err@ == e,
            }),
    {
        match ConstVar::parse(tokens, reg) {
            Ok(Some(const_var)) => {
                return Ok(Some(VarDec::ConstVar(const_var)));
            },
            Ok(None) => {},
            Err(e) => {
                return Err(e);
            },
        }
        match PrivateVar::parse(tokens, reg) {
            Ok(Some(private_var)) => {
                return Ok(Some(VarDec::PrivateVar(private_var)));
            },
            Ok(None) => {},
            Err(e) => {
                return Err(e);
            },
        }
        match GlobalVar::parse(tokens, reg) {
            Ok(Some(global_var)) => {
                return Ok(Some(VarDec::GlobalVar(global_var)));
            },
            Ok(None) => {},
            Err(e) => {
                return Err(e);
            },
        }
        match Vd::parse(tokens, reg) {
            Ok(Some(vd)) => Ok(Some(VarDec::Vd(vd))),
            Ok(None) => Ok(None),
            Err(e) => Err(e),
        }
    }
}

/// Law: a front identifier that is not registered in the type registry is a
/// no-match for the type rule, so [`parse_type`] returns `None` and leaves
/// the token queue byte-for-byte untouched.
pub proof fn law_unregistered_identifier_no_match(t: Seq<TokenContainerView>, reg: Seq<Seq<char>>)
    requires
        t.len() > 0,
        t[0].token is Identifier,
        !reg_contains(reg, t[0].token->Identifier_0),
    ensures
        spec_parse_type(t, reg) is None,
{
}

/// Law: after the `ju` keyword, the constant rule tries `<private_var>`,
/// then `<global_var>`, then plain `<vd>`, in that fixed order: whichever
/// alternative matches first decides the node, and an earlier alternative's
/// match forecloses the later ones.
pub proof fn law_const_var_order(t: Seq<TokenContainerView>, reg: Seq<Seq<char>>)
    requires
        t.len() > 0,
        t[0].token == TokenView::KeywordModifier(ModifierKeyword::Constant),
    ensures
        (match spec_parse_private_var(t.skip(1), reg) {
            Parsed::Match(p, c) => spec_parse_const_var(t, reg) == Parsed::<
                ConstVarView,
            >::Match(ConstVarView::PrivateVar(p), (1 + c) as nat),
            _ => true,
        }),
        (spec_parse_private_var(t.skip(1), reg) is NoMatch ==> (match spec_parse_global_var(
            t.skip(1),
            reg,
        ) {
            Parsed::Match(g, c) => spec_parse_const_var(t, reg) == Parsed::<
                ConstVarView,
            >::Match(ConstVarView::GlobalVar(g), (1 + c) as nat),
            _ => true,
        })),
        ((spec_parse_private_var(t.skip(1), reg) is NoMatch && spec_parse_global_var(
            t.skip(1),
            reg,
        ) is NoMatch) ==> (match spec_parse_vd(t.skip(1), reg) {
            Parsed::Match(vd, c) => spec_parse_const_var(t, reg) == Parsed::<
                ConstVarView,
            >::Match(ConstVarView::Vd(vd), (1 + c) as nat),
            _ => true,
        })),
{
}

// ---------------
// --- VarMod ----
// ---------------

/// Spec-level image of [`VarMod`].
pub struct VarModView {
    pub exp: ExpView,
}

/// The right-hand side of a variable modification: only an expression. The
/// modified name is an identifier already consumed by the caller, as the
/// LL(1) grammar prescribes.
#[derive(Debug, PartialEq, Clone)]
pub struct VarMod {
    pub exp: Exp,
}

impl View for VarMod {
    type V = VarModView;

    open spec fn view(&self) -> VarModView {
        VarModView { exp: self.exp@ }
    }
}

/// What [`VarMod::parse`] does: an expression at the front matches; no
/// expression is a no-match.
pub open spec fn spec_parse_var_mod(t: Seq<TokenContainerView>) -> Parsed<VarModView> {
    match spec_parse_exp(t) {
        Some((e, c)) => Parsed::Match(VarModView { exp: e }, c),
        None => Parsed::NoMatch,
    }
}

impl VarMod {
    pub fn new(exp: Exp) -> (r: Self)
        ensures
            r@ == (VarModView { exp: exp@ }),
    {
        Self { exp }
    }

    /// Parses `<var_mod> ::= <exp>`.
    pub fn parse(tokens: &mut VecDeque<TokenContainer>) -> (r: ResultOption<VarMod>)
        ensures
            (match spec_parse_var_mod(token_views(old(tokens)@)) {
                Parsed::NoMatch => r matches Ok(o) && o is None && final(tokens)@ == old(tokens)@,
                Parsed::Match(v, c) => r matches Ok(o) && o matches Some(m) && m@ == v && final(tokens)@ == old(tokens)@.skip(c as int),
                Parsed::Fail(e) => r matches Err(err) && err@ == e,
            }),
    {
        match Exp::parse(tokens) {
            Ok(Some(exp)) => Ok(Some(VarMod::new(exp))),
            Ok(None) => Ok(None),
            Err(_) => vstd::pervasive::unreached(),
        }
    }
}

} // verus!

