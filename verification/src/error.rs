//! The failure values of the three stages. Every stage is fail-fast: the
//! first error is returned and nothing partial is produced. Each error
//! carries the 1-based `(line, column)` of the offending position, except
//! the two end-of-input conditions, which have no position by construction.

use vstd::prelude::*;
use crate::token::{Keyword, Symbol};

verus! {

/// A lexical failure.
#[derive(Clone, Copy, PartialEq, Eq, Structural, Debug)]
pub enum LexerError {
    /// The text ended in the middle of a token: inside a string literal,
    /// or inside the exponent of a numeric literal, or after a lone `!`.
    IncompleteInput,
    /// The character at `(line, column)` cannot begin or continue any token.
    InvalidSymbol(u32, u32),
}

/// A syntactic failure, at the offending token's position.
#[derive(Clone, Copy, PartialEq, Eq, Structural, Debug)]
pub enum ParserError {
    /// An identifier was required at `(line, column)`.
    ExpectedIdent(u32, u32),
    /// The given keyword was required at `(line, column)`.
    ExpectedKeyword(u32, u32, Keyword),
    /// The given punctuation symbol was required at `(line, column)`.
    ExpectedSymbol(u32, u32, Symbol),
    /// A binary operator was required at `(line, column)`.
    ExpectedOperator(u32, u32),
    /// The token at `(line, column)` fits no grammar rule at that point.
    UnexpectedToken(u32, u32),
    /// The input ended where more of the query was required.
    UnexpectedEof,
}

/// A semantic failure found by the static analyzer.
#[derive(Clone, PartialEq, Debug)]
pub enum AnalysisError {
    /// A second `from` clause introduced the named binding in a scope that
    /// already holds it; the position is the second occurrence's.
    BindingAlreadyExists(u32, u32, String),
    /// The named identifier is bound in no enclosing scope.
    UnresolvedIdentifier(u32, u32, String),
    /// A field access named a field the target's record shape lacks.
    UnknownField(u32, u32, String),
    /// A field access was applied to a value that is not record-shaped.
    NotARecord(u32, u32),
}

/// Mathematical model of an analysis failure: names as `Seq<char>`.
pub enum AnalysisErrorView {
    BindingAlreadyExists(u32, u32, Seq<char>),
    UnresolvedIdentifier(u32, u32, Seq<char>),
    UnknownField(u32, u32, Seq<char>),
    NotARecord(u32, u32),
}

impl View for AnalysisError {
    type V = AnalysisErrorView;

    open spec fn view(&self) -> AnalysisErrorView {
        match self {
            AnalysisError::BindingAlreadyExists(l, c, n) => AnalysisErrorView::BindingAlreadyExists(*l, *c, n@),
            AnalysisError::UnresolvedIdentifier(l, c, n) => AnalysisErrorView::UnresolvedIdentifier(*l, *c, n@),
            AnalysisError::UnknownField(l, c, n) => AnalysisErrorView::UnknownField(*l, *c, n@),
            AnalysisError::NotARecord(l, c) => AnalysisErrorView::NotARecord(*l, *c),
        }
    }
}

/// A failure of the whole pipeline, tagged by the stage that found it.
#[derive(Clone, PartialEq, Debug)]
pub enum Error {
    Lexer(LexerError),
    Parser(ParserError),
    Analysis(AnalysisError),
}

} // verus!
