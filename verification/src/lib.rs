//! Front end of a query language over event streams: a lexer that turns
//! source text into positioned tokens, a recursive-descent parser that
//! builds an untyped syntax tree, and a static analyzer that resolves
//! bindings and propagates structural types.
//!
//! Each stage is a pure function defined by a mathematical specification
//! (`spec_tokens`, `spec_parse`, `spec_static_analysis`) that its
//! executable counterpart is proved to implement exactly; the first
//! failure of any stage is the result, tagged by the stage that found it.

pub mod analysis;
pub mod ast;
pub mod error;
pub mod lexer;
pub mod parser;
pub mod token;

use vstd::prelude::*;
use crate::ast::{Query, QueryView, query_view};
use crate::error::Error;
use crate::lexer::{lemma_tokens_wf, spec_tokens, tokenize};
use crate::parser::{parse, spec_parse};
use crate::token::token_views;

verus! {

/// What the front end owes for any query text: the outcome of lexing,
/// and on its success the outcome of parsing the resulting tokens.
pub open spec fn spec_parse_query(s: Seq<char>) -> Result<QueryView, Error> {
    match spec_tokens(s, 0) {
        Err(le) => Err(Error::Lexer(le)),
        Ok(ts) => match spec_parse(ts) {
            Err(pe) => Err(Error::Parser(pe)),
            Ok(qv) => Ok(qv),
        },
    }
}

/// Lex and parse one query text into the raw tree, or report the first
/// lexical or syntactic error, tagged by its stage.
pub fn parse_query(input: &str) -> (r: Result<Query, Error>)
    requires
        input@.len() < 0xFFFF_FFFE,
    ensures
        match (r, spec_parse_query(input@)) {
            (Ok(q), Ok(qv)) => query_view(q) == qv,
            (Err(a), Err(b)) => a == b,
            _ => false,
        },
{
    let tokens = match tokenize(input) {
        Ok(v) => v,
        Err(e) => {
            return Err(Error::Lexer(e));
        },
    };
    proof {
        lemma_tokens_wf(input@, 0);
        assert(token_views(tokens@) == spec_tokens(input@, 0)->Ok_0);
    }
    match parse(tokens.as_slice()) {
        Ok(q) => Ok(q),
        Err(e) => Err(Error::Parser(e)),
    }
}

} // verus!
