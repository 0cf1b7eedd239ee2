//! The parser's error taxonomy.
//!
//! Every failure is fatal and carries a fixed human-readable message. The
//! variants classify the failure; the places inside them record which grammar
//! position or which node kind was being read, which picks the message.

use vstd::prelude::*;
use vstd::string::StringExecFns;

verus! {

/// The grammar position at which a keyword was required.
#[derive(Clone, Copy, Debug, PartialEq, Eq, Structural)]
pub enum KeywordPlace {
    /// The top level of the input, where only scope declarations may stand.
    TopLevel,
    /// The start of a scope's block, where a hook or a container must follow.
    ScopeBody,
    /// The container list of a scope, after the hook prefix.
    ContainerList,
}

/// The node kind whose name literal was required.
#[derive(Clone, Copy, Debug, PartialEq, Eq, Structural)]
pub enum NamePlace {
    /// A scope's display name.
    Scope,
    /// A test case's display name.
    Test,
}

/// The node kind whose delimited block was required.
#[derive(Clone, Copy, Debug, PartialEq, Eq, Structural)]
pub enum BlockPlace {
    /// A scope's body block.
    Scope,
    /// A test case's body block.
    Test,
    /// A hook's body block.
    Hook,
}

/// A fatal parse failure. Parsing is all-or-nothing: the first failure is
/// propagated up the recursive descent with no recovery.
#[derive(Clone, Copy, Debug, PartialEq, Eq, Structural)]
pub enum ParseError {
    /// No identifier token stood where a keyword was required.
    MissingKeyword(KeywordPlace),
    /// An identifier stood here, but not a legal keyword for this position.
    UnexpectedKeyword,
    /// A string literal (a display name) was required and absent.
    MissingLiteral(NamePlace),
    /// A delimited block was required and absent.
    MissingBlock(BlockPlace),
    /// A scope's block held no tokens at all: an empty block is never valid.
    EmptyScope,
}

/// The fixed message of each failure.
pub open spec fn message_spec(e: ParseError) -> Seq<char> {
    match e {
        ParseError::MissingKeyword(KeywordPlace::TopLevel) => "not found keyword in parse"@,
        ParseError::MissingKeyword(KeywordPlace::ScopeBody) => "not found expected keyword (it subject before after)"@,
        ParseError::MissingKeyword(KeywordPlace::ContainerList) => "not found keyword in parse_containers"@,
        ParseError::UnexpectedKeyword => "not found expected describe keyword"@,
        ParseError::MissingLiteral(NamePlace::Scope) => "not found expected describe string"@,
        ParseError::MissingLiteral(NamePlace::Test) => "not found expected it string"@,
        ParseError::MissingBlock(BlockPlace::Scope) => "not found expected describe block"@,
        ParseError::MissingBlock(BlockPlace::Test) => "not found expected it block"@,
        ParseError::MissingBlock(BlockPlace::Hook) => "not found expected keyword"@,
        ParseError::EmptyScope => "not found expected keyword (it subject before after)"@,
    }
}

impl ParseError {
    /// The fixed human-readable message for this failure.
    pub fn message(&self) -> (r: String)
        ensures
            r@ == message_spec(*self),
    {
        match self {
            ParseError::MissingKeyword(KeywordPlace::TopLevel) => String::from_str(
                "not found keyword in parse",
            ),
            ParseError::MissingKeyword(KeywordPlace::ScopeBody) => String::from_str(
                "not found expected keyword (it subject before after)",
            ),
            ParseError::MissingKeyword(KeywordPlace::ContainerList) => String::from_str(
                "not found keyword in parse_containers",
            ),
            ParseError::UnexpectedKeyword => String::from_str("not found expected describe keyword"),
            ParseError::MissingLiteral(NamePlace::Scope) => String::from_str(
                "not found expected describe string",
            ),
            ParseError::MissingLiteral(NamePlace::Test) => String::from_str(
                "not found expected it string",
            ),
            ParseError::MissingBlock(BlockPlace::Scope) => String::from_str(
                "not found expected describe block",
            ),
            ParseError::MissingBlock(BlockPlace::Test) => String::from_str(
                "not found expected it block",
            ),
            ParseError::MissingBlock(BlockPlace::Hook) => String::from_str(
                "not found expected keyword",
            ),
            ParseError::EmptyScope => String::from_str(
                "not found expected keyword (it subject before after)",
            ),
        }
    }
}

} // verus!
