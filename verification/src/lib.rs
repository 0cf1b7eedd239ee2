//! A compiler for a declarative test-specification grammar.
//!
//! Input is a sequence of tokens written in a nested
//! `describe`/`context`/`it`/`before`/`after`/`subject` grammar. The parser
//! builds a tree of scopes and test cases; the expander walks that tree and
//! emits the tokens of one module per scope and one test function per test
//! case.

use vstd::prelude::*;

pub mod errors;
pub mod laws;
pub mod parser;
pub mod token;
pub mod types;

use crate::errors::ParseError;
use crate::parser::{parse_spec, Parser};
use crate::token::{tokens_view, Token, TokenM};
use crate::types::{scopes_expand_spec, DescribeStatement};

verus! {

/// The model of a compilation result.
pub open spec fn tokens_result_view(r: Result<Vec<Token>, ParseError>) -> Result<
    Seq<TokenM>,
    ParseError,
> {
    match r {
        Ok(v) => Ok(tokens_view(v@)),
        Err(e) => Err(e),
    }
}

/// The whole compilation at the model level: parse the input into scopes,
/// then expand the scopes into generated code. Expansion is total; every
/// failure is the parser's.
pub open spec fn ruspec_spec(s: Seq<TokenM>) -> Result<Seq<TokenM>, ParseError> {
    match parse_spec(s) {
        Ok(scs) => Ok(scopes_expand_spec(scs)),
        Err(e) => Err(e),
    }
}

/// Compiles a specification token stream into the tokens of the generated
/// test code: one module per scope, one test function per test case, or the
/// first parse failure met.
pub fn ruspec(input: Vec<Token>) -> (r: Result<Vec<Token>, ParseError>)
    ensures
        tokens_result_view(r) == ruspec_spec(tokens_view(input@)),
{
    let mut parser = Parser::new(input);
    match parser.parse() {
        Ok(statements) => Ok(DescribeStatement::expands(statements)),
        Err(e) => Err(e),
    }
}

} // verus!
