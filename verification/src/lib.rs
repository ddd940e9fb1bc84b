//! Front end and evaluator for the Skribi language: a lexer that turns source
//! text into positioned tokens, a recursive-descent parser that builds a typed
//! AST under a committed-choice LL(1) grammar, and a tree-walking executor
//! that evaluates declarations against a scoped variable environment.
//!
//! The four operations of the pipeline are [`lexer::tokenize`],
//! [`vars::VarDec::parse`], [`interpret::execute`] and
//! [`graph::render_diagram`]; data flows strictly left to right between
//! them.

pub use graph::render_diagram;
pub use interpret::execute;
pub use lexer::tokenize;

pub mod expressions;
pub mod graph;
pub mod id_nodes;
pub mod interpret;
pub mod lexer;
pub mod registry;
pub mod skr_errors;
pub mod tokens;
pub mod variables;
pub mod vars;

use vstd::prelude::*;

verus! {

} // verus!
