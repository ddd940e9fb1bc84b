//! The closed taxonomy of lexical and syntax failures, plus structured
//! "not yet implemented" placeholders for unfinished grammar areas.

use vstd::prelude::*;

verus! {

/// Spec-level image of [`NotYetImplementedType`]: each variant carries the
/// description as a character sequence.
pub enum NotYetImplementedView {
    MissingSymbol(Seq<char>),
    MissingGrammar(Seq<char>),
    NotYetVoted(Seq<char>),
    InProgress(Seq<char>),
    Planed(Seq<char>),
    Other(Seq<char>),
}

/// Spec-level image of [`CustomError`]. Lexical errors carry the 1-based line
/// they cite.
pub enum CustomErrorView {
    InvalidFloat(Seq<char>, nat),
    InvalidString(Seq<char>, nat),
    UnexpectedToken(Seq<char>),
    NotYetImplemented(NotYetImplementedView),
}

/// Structured placeholder raised for an unfinished grammar area, so that an
/// incomplete feature fails loudly instead of behaving incorrectly.
#[derive(Debug, PartialEq)]
pub enum NotYetImplementedType {
    MissingSymbol(String),
    MissingGrammar(String),
    NotYetVoted(String),
    InProgress(String),
    Planed(String),
    Other(String),
}

impl View for NotYetImplementedType {
    type V = NotYetImplementedView;

    open spec fn view(&self) -> NotYetImplementedView {
        match self {
            NotYetImplementedType::MissingSymbol(s) => NotYetImplementedView::MissingSymbol(s@),
            NotYetImplementedType::MissingGrammar(s) => NotYetImplementedView::MissingGrammar(s@),
            NotYetImplementedType::NotYetVoted(s) => NotYetImplementedView::NotYetVoted(s@),
            NotYetImplementedType::InProgress(s) => NotYetImplementedView::InProgress(s@),
            NotYetImplementedType::Planed(s) => NotYetImplementedView::Planed(s@),
            NotYetImplementedType::Other(s) => NotYetImplementedView::Other(s@),
        }
    }
}

/// A failure of tokenizing or parsing: a lexical error citing a line, or an
/// unexpected token after a grammar rule has committed.
#[derive(Debug, PartialEq)]
pub enum CustomError {
    InvalidFloat(String, usize),
    InvalidString(String, usize),
    UnexpectedToken(String),
    NotYetImplemented(NotYetImplementedType),
}

impl View for CustomError {
    type V = CustomErrorView;

    open spec fn view(&self) -> CustomErrorView {
        match self {
            CustomError::InvalidFloat(s, line) => CustomErrorView::InvalidFloat(s@, *line as nat),
            CustomError::InvalidString(s, line) => CustomErrorView::InvalidString(
                s@,
                *line as nat,
            ),
            CustomError::UnexpectedToken(s) => CustomErrorView::UnexpectedToken(s@),
            CustomError::NotYetImplemented(t) => CustomErrorView::NotYetImplemented(t@),
        }
    }
}

pub type ShortResult<T> = Result<T, CustomError>;

pub type ResultOption<T> = ShortResult<Option<T>>;

} // verus!
