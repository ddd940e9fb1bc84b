//! The closed set of lexical symbols and their source-position wrapper.
//!
//! Numeric tokens carry the digit text they were scanned from; turning that
//! text into a machine value happens at evaluation time, where a failure is
//! reported instead of being swallowed.

use vstd::prelude::*;

verus! {

/// A modifier keyword prefixing a variable declaration: global (`fu`),
/// constant (`ju`) or private (`pu`).
#[derive(Debug, PartialEq, Eq, Structural, Clone, Copy)]
pub enum ModifierKeyword {
    Global,
    Constant,
    Private,
}

/// A whitespace marker emitted by the lexer. Only newlines are emitted today;
/// plain spaces are dropped.
#[derive(Debug, PartialEq, Eq, Structural, Clone, Copy)]
pub enum SpaceTypes {
    Space,
    NewLine,
    Tab,
}

/// Spec-level image of [`Token`]: text payloads appear as character
/// sequences.
pub enum TokenView {
    Bool(bool),
    Int(Seq<char>),
    Float(Seq<char>),
    String(Seq<char>),
    NatCall,
    Add,
    Sub,
    Not,
    Div,
    Mul,
    LeftParenthesis,
    RightParenthesis,
    LeftBrace,
    RightBrace,
    Inside,
    Identifier(Seq<char>),
    Space(SpaceTypes),
    KeywordModifier(ModifierKeyword),
    KeywordIf,
    KeywordElse,
    KeywordClass,
    KeywordFunction,
    KeywordReturn,
    KeywordBubbleScope,
    KeywordSimpleScope,
    KeywordUnusedScope,
    Invalid(Seq<char>),
    Equal,
    NotEqual,
    And,
    Or,
}

/// One lexical unit. `Int` and `Float` carry the accumulated digit text;
/// `Invalid` carries an unrecognized character, deferred to a later pass
/// rather than failing the tokenize call.
#[derive(Debug, PartialEq, Clone)]
pub enum Token {
    Bool(bool),
    Int(String),
    Float(String),
    String(String),
    NatCall,
    Add,
    Sub,
    Not,
    Div,
    Mul,
    LeftParenthesis,
    RightParenthesis,
    LeftBrace,
    RightBrace,
    Inside,
    Identifier(String),
    Space(SpaceTypes),
    KeywordModifier(ModifierKeyword),
    KeywordIf,
    KeywordElse,
    KeywordClass,
    KeywordFunction,
    KeywordReturn,
    /// = biuli
    KeywordBubbleScope,
    /// = kodi
    KeywordSimpleScope,
    /// = spoki
    KeywordUnusedScope,
    Invalid(String),
    Equal,
    NotEqual,
    And,
    Or,
}

impl View for Token {
    type V = TokenView;

    open spec fn view(&self) -> TokenView {
        match self {
            Token::Bool(b) => TokenView::Bool(*b),
            Token::Int(s) => TokenView::Int(s@),
            Token::Float(s) => TokenView::Float(s@),
            Token::String(s) => TokenView::String(s@),
            Token::NatCall => TokenView::NatCall,
            Token::Add => TokenView::Add,
            Token::Sub => TokenView::Sub,
            Token::Not => TokenView::Not,
            Token::Div => TokenView::Div,
            Token::Mul => TokenView::Mul,
            Token::LeftParenthesis => TokenView::LeftParenthesis,
            Token::RightParenthesis => TokenView::RightParenthesis,
            Token::LeftBrace => TokenView::LeftBrace,
            Token::RightBrace => TokenView::RightBrace,
            Token::Inside => TokenView::Inside,
            Token::Identifier(s) => TokenView::Identifier(s@),
            Token::Space(t) => TokenView::Space(*t),
            Token::KeywordModifier(k) => TokenView::KeywordModifier(*k),
            Token::KeywordIf => TokenView::KeywordIf,
            Token::KeywordElse => TokenView::KeywordElse,
            Token::KeywordClass => TokenView::KeywordClass,
            Token::KeywordFunction => TokenView::KeywordFunction,
            Token::KeywordReturn => TokenView::KeywordReturn,
            Token::KeywordBubbleScope => TokenView::KeywordBubbleScope,
            Token::KeywordSimpleScope => TokenView::KeywordSimpleScope,
            Token::KeywordUnusedScope => TokenView::KeywordUnusedScope,
            Token::Invalid(s) => TokenView::Invalid(s@),
            Token::Equal => TokenView::Equal,
            Token::NotEqual => TokenView::NotEqual,
            Token::And => TokenView::And,
            Token::Or => TokenView::Or,
        }
    }
}

/// Spec-level image of [`TokenContainer`].
pub struct TokenContainerView {
    pub token: TokenView,
    pub line: nat,
    pub column: nat,
}

/// A token together with its provenance: the 1-based line it was scanned on
/// and a column. The column is currently always 0; it is reset at line start
/// and not incremented per character, a documented limitation.
#[derive(Debug, PartialEq, Clone)]
pub struct TokenContainer {
    pub token: Token,
    pub line: usize,
    pub column: usize,
}

impl View for TokenContainer {
    type V = TokenContainerView;

    open spec fn view(&self) -> TokenContainerView {
        TokenContainerView { token: self.token@, line: self.line as nat, column: self.column as nat }
    }
}

impl TokenContainer {
    pub fn new(token: Token, line: usize, column: usize) -> (r: Self)
        ensures
            r.token == token,
            r.line == line,
            r.column == column,
    {
        Self { token, line, column }
    }
}

/// The spec-level images of a whole token queue, in order.
pub open spec fn token_views(v: Seq<TokenContainer>) -> Seq<TokenContainerView> {
    Seq::new(v.len(), |i: int| v[i]@)
}

/// Relies on std's `String: FromIterator<char>`: collecting characters
/// yields the string holding exactly those characters in order.
#[verifier::external_body]
pub(crate) fn chars_to_string(v: &Vec<char>) -> (s: String)
    ensures
        s@ == v@,
{
    v.iter().collect()
}

} // verus!
