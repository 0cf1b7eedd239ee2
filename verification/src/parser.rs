//! The recursive-descent parser of the specification grammar.
//!
//! Top-level input is a sequence of scope declarations. A scope is
//! `describe`/`context` (synonyms), a string literal (its display name), and
//! a delimited block. The block holds a contiguous prefix of hook
//! declarations (`before`, `after`, `subject` — each keyword, then a block),
//! followed by containers: nested scopes and `it` test cases. Each nested
//! block is parsed independently, which gives unbounded nesting depth.
//!
//! The contracts relate the executable parser to the spec-level functions
//! [`parse_spec`], [`parse_scopes_spec`], [`scope_from_block_spec`],
//! [`parse_body_spec`] and [`parse_containers_spec`], which state the
//! grammar over the token model.

use vstd::prelude::*;
use vstd::string::StringExecFns;

use crate::errors::{BlockPlace, KeywordPlace, NamePlace, ParseError};
use crate::token::{
    copy_tokens, lemma_tokens_view_index, lemma_tokens_view_len, token_view, tokens_view, Token,
    TokenM,
};
use crate::types::{
    container_view, containers_view, describe_view, describes_view, lemma_containers_view_push,
    lemma_describes_view_push, Callbacks, CallbacksM, Container, ContainerM, DescribeStatement,
    ScopeM, Test, TestM,
};

verus! {

/// The closed keyword set of the grammar. Raw token text maps into this set;
/// anything else is `Unmatch`.
#[derive(Clone, Copy, Debug, PartialEq, Eq, Structural)]
pub enum Keyword {
    /// `describe` or `context`: a scope declaration (the two are synonyms).
    Describe,
    /// `before`: the setup hook.
    Before,
    /// `after`: the teardown hook.
    After,
    /// `it`: a test case.
    It,
    /// `subject`: the memoized subject hook.
    Subject,
    /// Any other word.
    Unmatch,
}

/// The keyword denoted by a word of the input.
pub open spec fn keyword_spec(w: Seq<char>) -> Keyword {
    if w == "describe"@ || w == "context"@ {
        Keyword::Describe
    } else if w == "before"@ {
        Keyword::Before
    } else if w == "after"@ {
        Keyword::After
    } else if w == "it"@ {
        Keyword::It
    } else if w == "subject"@ {
        Keyword::Subject
    } else {
        Keyword::Unmatch
    }
}

/// Whether the keyword declares a hook.
pub open spec fn is_hook_keyword(k: Keyword) -> bool {
    k == Keyword::Before || k == Keyword::After || k == Keyword::Subject
}

/// The hook slots with nothing declared.
pub open spec fn empty_callbacks() -> CallbacksM {
    CallbacksM { before: None, after: None, subject: None }
}

/// Stores a hook's body span in its slot, overwriting an earlier declaration
/// of the same hook kind.
pub open spec fn store_hook(cb: CallbacksM, k: Keyword, ts: Seq<TokenM>) -> CallbacksM {
    match k {
        Keyword::Before => CallbacksM { before: Some(ts), ..cb },
        Keyword::After => CallbacksM { after: Some(ts), ..cb },
        Keyword::Subject => CallbacksM { subject: Some(ts), ..cb },
        _ => cb,
    }
}

/// The text of an identifier token (empty for any other token).
pub open spec fn ident_text(t: TokenM) -> Seq<char> {
    match t {
        TokenM::Ident(x) => x,
        _ => Seq::empty(),
    }
}

/// The text of a literal token (empty for any other token).
pub open spec fn literal_text(t: TokenM) -> Seq<char> {
    match t {
        TokenM::Literal(x) => x,
        _ => Seq::empty(),
    }
}

/// The interior tokens of a group token (empty for any other token).
pub open spec fn group_tokens(t: TokenM) -> Seq<TokenM> {
    match t {
        TokenM::Group(_, ts) => ts,
        _ => Seq::empty(),
    }
}

/// The sanitized identifier that the sanitizer produces for a display text:
/// its lowercase, underscore-separated snake_case form. The result is a
/// function of the characters alone; the compiler never inspects it.
pub uninterp spec fn snake_of(s: Seq<char>) -> Seq<char>;

/// Relies on `to_snake_case` of the `Inflector` crate
/// (`inflector::cases::snakecase::to_snake_case`): converts a display string
/// to its lowercase, underscore-separated identifier form. The result
/// depends on the characters of the input alone.
#[verifier::external_body]
fn sanitize(s: &String) -> (r: String)
    ensures
        r@ == snake_of(s@),
{
    inflector::cases::snakecase::to_snake_case(s.as_str())
}

/// Parses a whole input: the ordered sequence of top-level scopes.
pub open spec fn parse_spec(s: Seq<TokenM>) -> Result<Seq<ScopeM>, ParseError> {
    parse_scopes_spec(s, 0)
}

/// Parses the remaining top-level scope declarations from position `i`.
/// Only scope declarations are legal at top level.
pub open spec fn parse_scopes_spec(s: Seq<TokenM>, i: int) -> Result<Seq<ScopeM>, ParseError>
    decreases s, s.len() - i, 0int,
{
    if i < 0 || i >= s.len() {
        Ok(Seq::empty())
    } else {
        match s[i] {
            TokenM::Ident(w) => {
                if keyword_spec(w) == Keyword::Describe {
                    if i + 1 < s.len() && s[i + 1] is Literal {
                        if i + 2 < s.len() && s[i + 2] is Group {
                            proof {
                                assert(decreases_to!(s => s[i + 2]));
                                assert(decreases_to!(s[i + 2] => s[i + 2]->Group_1));
                            }
                            match scope_from_block_spec(
                                literal_text(s[i + 1]),
                                group_tokens(s[i + 2]),
                            ) {
                                Ok(sc) => match parse_scopes_spec(s, i + 3) {
                                    Ok(rest) => Ok(seq![sc] + rest),
                                    Err(e) => Err(e),
                                },
                                Err(e) => Err(e),
                            }
                        } else {
                            Err(ParseError::MissingBlock(BlockPlace::Scope))
                        }
                    } else {
                        Err(ParseError::MissingLiteral(NamePlace::Scope))
                    }
                } else {
                    Err(ParseError::UnexpectedKeyword)
                }
            },
            _ => Err(ParseError::MissingKeyword(KeywordPlace::TopLevel)),
        }
    }
}

/// Parses a scope's block interior, given the scope's raw display text. An
/// empty block is never valid; otherwise the hook prefix and then the
/// containers are read, and the scope node is assembled.
pub open spec fn scope_from_block_spec(name_text: Seq<char>, inner: Seq<TokenM>) -> Result<
    ScopeM,
    ParseError,
>
    decreases inner, inner.len() + 2,
{
    if inner.len() == 0 {
        Err(ParseError::EmptyScope)
    } else {
        match parse_body_spec(inner, 0, empty_callbacks()) {
            Ok((cb, cs)) => Ok(
                ScopeM {
                    name: snake_of(name_text),
                    containers: cs,
                    before: cb.before,
                    after: cb.after,
                    subject: cb.subject,
                },
            ),
            Err(e) => Err(e),
        }
    }
}

/// Parses a scope block from position `i`: first the contiguous prefix of
/// hook declarations (a later declaration of the same hook kind overwrites
/// an earlier one), then the containers. After the hook prefix an identifier
/// token must stand: hooks alone, or anything that is not a word, is a
/// failure.
pub open spec fn parse_body_spec(s: Seq<TokenM>, i: int, cb: CallbacksM) -> Result<
    (CallbacksM, Seq<ContainerM>),
    ParseError,
>
    decreases s, s.len() - i, 1int,
{
    if i < 0 || i >= s.len() {
        Err(ParseError::MissingKeyword(KeywordPlace::ScopeBody))
    } else {
        match s[i] {
            TokenM::Ident(w) => {
                let k = keyword_spec(w);
                if is_hook_keyword(k) {
                    if i + 1 < s.len() && s[i + 1] is Group {
                        parse_body_spec(s, i + 2, store_hook(cb, k, group_tokens(s[i + 1])))
                    } else {
                        Err(ParseError::MissingBlock(BlockPlace::Hook))
                    }
                } else {
                    match parse_containers_spec(s, i) {
                        Ok(cs) => Ok((cb, cs)),
                        Err(e) => Err(e),
                    }
                }
            },
            _ => Err(ParseError::MissingKeyword(KeywordPlace::ScopeBody)),
        }
    }
}

/// Parses the container list of a scope block from position `i`: an ordered
/// sequence of nested scopes and test cases, until the block's tokens are
/// exhausted.
pub open spec fn parse_containers_spec(s: Seq<TokenM>, i: int) -> Result<Seq<ContainerM>, ParseError>
    decreases s, s.len() - i, 0int,
{
    if i < 0 || i >= s.len() {
        Ok(Seq::empty())
    } else {
        match s[i] {
            TokenM::Ident(w) => {
                let k = keyword_spec(w);
                if k == Keyword::Describe {
                    if i + 1 < s.len() && s[i + 1] is Literal {
                        if i + 2 < s.len() && s[i + 2] is Group {
                            proof {
                                assert(decreases_to!(s => s[i + 2]));
                                assert(decreases_to!(s[i + 2] => s[i + 2]->Group_1));
                            }
                            match scope_from_block_spec(
                                literal_text(s[i + 1]),
                                group_tokens(s[i + 2]),
                            ) {
                                Ok(sc) => match parse_containers_spec(s, i + 3) {
                                    Ok(rest) => Ok(seq![ContainerM::Describe(sc)] + rest),
                                    Err(e) => Err(e),
                                },
                                Err(e) => Err(e),
                            }
                        } else {
                            Err(ParseError::MissingBlock(BlockPlace::Scope))
                        }
                    } else {
                        Err(ParseError::MissingLiteral(NamePlace::Scope))
                    }
                } else if k == Keyword::It {
                    if i + 1 < s.len() && s[i + 1] is Literal {
                        if i + 2 < s.len() && s[i + 2] is Group {
                            match parse_containers_spec(s, i + 3) {
                                Ok(rest) => Ok(
                                    seq![
                                        ContainerM::Test(
                                            TestM {
                                                name: snake_of(literal_text(s[i + 1])),
                                                container: group_tokens(s[i + 2]),
                                            },
                                        ),
                                    ] + rest,
                                ),
                                Err(e) => Err(e),
                            }
                        } else {
                            Err(ParseError::MissingBlock(BlockPlace::Test))
                        }
                    } else {
                        Err(ParseError::MissingLiteral(NamePlace::Test))
                    }
                } else {
                    Err(ParseError::UnexpectedKeyword)
                }
            },
            _ => Err(ParseError::MissingKeyword(KeywordPlace::ContainerList)),
        }
    }
}

/// The model of a parse result.
pub open spec fn scopes_result_view(r: Result<Vec<DescribeStatement>, ParseError>) -> Result<
    Seq<ScopeM>,
    ParseError,
> {
    match r {
        Ok(v) => Ok(describes_view(v@)),
        Err(e) => Err(e),
    }
}

/// The model of a parsed scope.
pub open spec fn scope_result_view(r: Result<DescribeStatement, ParseError>) -> Result<
    ScopeM,
    ParseError,
> {
    match r {
        Ok(d) => Ok(describe_view(d)),
        Err(e) => Err(e),
    }
}

/// The model of a parsed scope body.
pub open spec fn body_result_view(r: Result<(Callbacks, Vec<Container>), ParseError>) -> Result<
    (CallbacksM, Seq<ContainerM>),
    ParseError,
> {
    match r {
        Ok((cb, cs)) => Ok((cb@, containers_view(cs@))),
        Err(e) => Err(e),
    }
}

/// The model of a parsed container list.
pub open spec fn containers_result_view(r: Result<Vec<Container>, ParseError>) -> Result<
    Seq<ContainerM>,
    ParseError,
> {
    match r {
        Ok(v) => Ok(containers_view(v@)),
        Err(e) => Err(e),
    }
}

/// Maps a word to its keyword.
fn keyword_of(w: &String) -> (k: Keyword)
    ensures
        k == keyword_spec(w@),
{
    let describe = String::from_str("describe");
    let context = String::from_str("context");
    let before = String::from_str("before");
    let after = String::from_str("after");
    let it = String::from_str("it");
    let subject = String::from_str("subject");
    if *w == describe || *w == context {
        Keyword::Describe
    } else if *w == before {
        Keyword::Before
    } else if *w == after {
        Keyword::After
    } else if *w == it {
        Keyword::It
    } else if *w == subject {
        Keyword::Subject
    } else {
        Keyword::Unmatch
    }
}

/// Parses one scope's block interior; `name` is the raw display text of the
/// scope's name literal.
fn scope_from_block(name: &String, inner: &Vec<Token>) -> (r: Result<DescribeStatement, ParseError>)
    ensures
        scope_result_view(r) == scope_from_block_spec(name@, tokens_view(inner@)),
    decreases inner@, inner@.len() + 2,
{
    broadcast use lemma_tokens_view_len;

    if inner.len() == 0 {
        return Err(ParseError::EmptyScope);
    }
    let sanitized = sanitize(name);
    match parse_body(inner) {
        Ok((callbacks, containers)) => Ok(
            DescribeStatement::new(
                sanitized,
                containers,
                callbacks.before,
                callbacks.after,
                callbacks.subject,
            ),
        ),
        Err(e) => Err(e),
    }
}

/// Parses a non-empty scope block: the hook prefix, then the containers.
fn parse_body(tokens: &Vec<Token>) -> (r: Result<(Callbacks, Vec<Container>), ParseError>)
    requires
        tokens@.len() > 0,
    ensures
        body_result_view(r) == parse_body_spec(tokens_view(tokens@), 0, empty_callbacks()),
    decreases tokens@, tokens@.len() + 1,
{
    broadcast use {lemma_tokens_view_len, lemma_tokens_view_index};

    let ghost tv = tokens_view(tokens@);
    let mut cb = Callbacks::default();
    let mut i: usize = 0;
    loop
        invariant
            i <= tokens@.len(),
            tv == tokens_view(tokens@),
            tokens@.len() > 0,
            parse_body_spec(tv, 0, empty_callbacks()) == parse_body_spec(tv, i as int, cb@),
        decreases tokens@.len() - i,
    {
        broadcast use {lemma_tokens_view_len, lemma_tokens_view_index};

        if i >= tokens.len() {
            return Err(ParseError::MissingKeyword(KeywordPlace::ScopeBody));
        }
        match &tokens[i] {
            Token::Ident(w) => {
                let k = keyword_of(w);
                if k == Keyword::Before || k == Keyword::After || k == Keyword::Subject {
                    if i + 1 >= tokens.len() {
                        return Err(ParseError::MissingBlock(BlockPlace::Hook));
                    }
                    match &tokens[i + 1] {
                        Token::Group(_, hook_tokens) => {
                            let ghost cb0 = cb@;
                            let span = copy_tokens(hook_tokens);
                            if k == Keyword::Before {
                                cb.before = Some(span);
                            } else if k == Keyword::After {
                                cb.after = Some(span);
                            } else {
                                cb.subject = Some(span);
                            }
                            proof {
                                assert(cb@ == store_hook(cb0, k, group_tokens(tv[i as int + 1])));
                            }
                            i += 2;
                        },
                        _ => {
                            return Err(ParseError::MissingBlock(BlockPlace::Hook));
                        },
                    }
                } else {
                    match parse_containers(tokens, i) {
                        Ok(cs) => {
                            return Ok((cb, cs));
                        },
                        Err(e) => {
                            return Err(e);
                        },
                    }
                }
            },
            _ => {
                return Err(ParseError::MissingKeyword(KeywordPlace::ScopeBody));
            },
        }
    }
}

/// Parses the containers of a scope block from position `start` to the end
/// of the block.
fn parse_containers(tokens: &Vec<Token>, start: usize) -> (r: Result<Vec<Container>, ParseError>)
    requires
        start <= tokens@.len(),
    ensures
        containers_result_view(r) == parse_containers_spec(tokens_view(tokens@), start as int),
    decreases tokens@, tokens@.len(),
{
    broadcast use {lemma_tokens_view_len, lemma_tokens_view_index};

    let ghost tv = tokens_view(tokens@);
    let mut containers: Vec<Container> = Vec::new();
    let mut i: usize = start;
    proof {
        assert(containers_view(containers@) =~= Seq::<ContainerM>::empty());
        if let Ok(rest) = parse_containers_spec(tv, start as int) {
            assert(containers_view(containers@) + rest =~= rest);
        }
    }
    while i < tokens.len()
        invariant
            start <= i <= tokens@.len(),
            tv == tokens_view(tokens@),
            parse_containers_spec(tv, start as int) == (match parse_containers_spec(
                tv,
                i as int,
            ) {
                Ok(rest) => Ok(containers_view(containers@) + rest),
                Err(e) => Err(e),
            }),
        decreases tokens@.len() - i,
    {
        broadcast use {lemma_tokens_view_len, lemma_tokens_view_index, lemma_containers_view_push};

        match &tokens[i] {
            Token::Ident(w) => {
                let k = keyword_of(w);
                if k == Keyword::Describe {
                    if i + 1 >= tokens.len() {
                        return Err(ParseError::MissingLiteral(NamePlace::Scope));
                    }
                    match &tokens[i + 1] {
                        Token::Literal(lit) => {
                            if i + 2 >= tokens.len() {
                                return Err(ParseError::MissingBlock(BlockPlace::Scope));
                            }
                            match &tokens[i + 2] {
                                Token::Group(_, inner) => {
                                    proof {
                                        assert(decreases_to!(tokens@ => tokens@[i as int + 2]));
                                    }
                                    match scope_from_block(lit, inner) {
                                        Ok(sc) => {
                                            let ghost cs0 = containers_view(containers@);
                                            let ghost scm = describe_view(sc);
                                            containers.push(Container::Describe(sc));
                                            proof {
                                                if let Ok(rest) = parse_containers_spec(
                                                    tv,
                                                    i as int + 3,
                                                ) {
                                                    assert(cs0.push(ContainerM::Describe(scm))
                                                        + rest =~= cs0 + (seq![
                                                        ContainerM::Describe(scm),
                                                    ] + rest));
                                                }
                                            }
                                            i += 3;
                                        },
                                        Err(e) => {
                                            return Err(e);
                                        },
                                    }
                                },
                                _ => {
                                    return Err(ParseError::MissingBlock(BlockPlace::Scope));
                                },
                            }
                        },
                        _ => {
                            return Err(ParseError::MissingLiteral(NamePlace::Scope));
                        },
                    }
                } else if k == Keyword::It {
                    if i + 1 >= tokens.len() {
                        return Err(ParseError::MissingLiteral(NamePlace::Test));
                    }
                    match &tokens[i + 1] {
                        Token::Literal(lit) => {
                            if i + 2 >= tokens.len() {
                                return Err(ParseError::MissingBlock(BlockPlace::Test));
                            }
                            match &tokens[i + 2] {
                                Token::Group(_, body) => {
                                    let name = sanitize(lit);
                                    let t = Test { name, container: copy_tokens(body) };
                                    let ghost cs0 = containers_view(containers@);
                                    let ghost tm = container_view(Container::Test(t));
                                    containers.push(Container::Test(t));
                                    proof {
                                        if let Ok(rest) = parse_containers_spec(tv, i as int + 3) {
                                            assert(cs0.push(tm) + rest =~= cs0 + (seq![tm] + rest));
                                        }
                                    }
                                    i += 3;
                                },
                                _ => {
                                    return Err(ParseError::MissingBlock(BlockPlace::Test));
                                },
                            }
                        },
                        _ => {
                            return Err(ParseError::MissingLiteral(NamePlace::Test));
                        },
                    }
                } else {
                    return Err(ParseError::UnexpectedKeyword);
                }
            },
            _ => {
                return Err(ParseError::MissingKeyword(KeywordPlace::ContainerList));
            },
        }
    }
    proof {
        if let Ok(rest) = parse_containers_spec(tv, i as int) {
            assert(containers_view(containers@) + rest =~= containers_view(containers@));
        }
    }
    Ok(containers)
}


/// The token cursor and recursive-descent parser over one token sequence.
/// `position` is the read position; the tokens before it have been consumed.
#[derive(Debug)]
pub struct Parser {
    /// The token sequence being read.
    pub input: Vec<Token>,
    /// The current read position.
    pub position: usize,
}

impl Parser {
    /// A fresh cursor over `input`, positioned at its start.
    pub fn new(input: Vec<Token>) -> (r: Parser)
        ensures
            r.input == input,
            r.position == 0,
    {
        Parser { input, position: 0 }
    }

    /// The token at the read position, absent at or past the end of input.
    pub fn current(&self) -> (r: Option<&Token>)
        ensures
            match r {
                Some(t) => self.position < self.input@.len() && *t == self.input@[
                    self.position as int
                ],
                None => self.position >= self.input@.len(),
            },
    {
        if self.position < self.input.len() {
            Some(&self.input[self.position])
        } else {
            None
        }
    }

    /// The token one past the read position: the lookahead, absent when
    /// fewer than two tokens remain.
    pub fn peek(&self) -> (r: Option<&Token>)
        ensures
            match r {
                Some(t) => self.position + 1 < self.input@.len() && *t == self.input@[
                    self.position as int + 1
                ],
                None => self.position + 1 >= self.input@.len(),
            },
    {
        if self.position < self.input.len() && self.position + 1 < self.input.len() {
            Some(&self.input[self.position + 1])
        } else {
            None
        }
    }

    /// Moves the read position forward by one; at the end of input the
    /// position stays put, and both current and lookahead remain absent.
    pub fn advance(&mut self)
        ensures
            final(self).input == old(self).input,
            final(self).position == if old(self).position < old(self).input@.len() {
                old(self).position + 1
            } else {
                old(self).position as int
            },
    {
        if self.position < self.input.len() {
            self.position = self.position + 1;
        }
    }

    /// Parses the whole input as a sequence of top-level scope declarations,
    /// consuming the cursor. Returns the scopes in source order, or the
    /// first failure met.
    pub fn parse(&mut self) -> (r: Result<Vec<DescribeStatement>, ParseError>)
        ensures
            final(self).input == old(self).input,
            final(self).position == old(self).input@.len(),
            scopes_result_view(r) == parse_spec(tokens_view(old(self).input@)),
    {
        let r = parse_scopes(&self.input);
        let end = self.input.len();
        self.position = end;
        r
    }
}

/// Parses a whole token sequence as top-level scope declarations.
fn parse_scopes(tokens: &Vec<Token>) -> (r: Result<Vec<DescribeStatement>, ParseError>)
    ensures
        scopes_result_view(r) == parse_spec(tokens_view(tokens@)),
{
    broadcast use {lemma_tokens_view_len, lemma_tokens_view_index};

    let ghost tv = tokens_view(tokens@);
    let mut statements: Vec<DescribeStatement> = Vec::new();
    let mut i: usize = 0;
    proof {
        assert(describes_view(statements@) =~= Seq::<ScopeM>::empty());
        if let Ok(rest) = parse_scopes_spec(tv, 0) {
            assert(describes_view(statements@) + rest =~= rest);
        }
    }
    while i < tokens.len()
        invariant
            i <= tokens@.len(),
            tv == tokens_view(tokens@),
            parse_scopes_spec(tv, 0) == (match parse_scopes_spec(tv, i as int) {
                Ok(rest) => Ok(describes_view(statements@) + rest),
                Err(e) => Err(e),
            }),
        decreases tokens@.len() - i,
    {
        broadcast use {lemma_tokens_view_len, lemma_tokens_view_index, lemma_describes_view_push};

        match &tokens[i] {
            Token::Ident(w) => {
                let k = keyword_of(w);
                if k == Keyword::Describe {
                    if i + 1 >= tokens.len() {
                        return Err(ParseError::MissingLiteral(NamePlace::Scope));
                    }
                    match &tokens[i + 1] {
                        Token::Literal(lit) => {
                            if i + 2 >= tokens.len() {
                                return Err(ParseError::MissingBlock(BlockPlace::Scope));
                            }
                            match &tokens[i + 2] {
                                Token::Group(_, inner) => {
                                    proof {
                                        assert(decreases_to!(tokens@ => tokens@[i as int + 2]));
                                    }
                                    match scope_from_block(lit, inner) {
                                        Ok(sc) => {
                                            let ghost ss0 = describes_view(statements@);
                                            let ghost scm = describe_view(sc);
                                            statements.push(sc);
                                            proof {
                                                if let Ok(rest) = parse_scopes_spec(
                                                    tv,
                                                    i as int + 3,
                                                ) {
                                                    assert(ss0.push(scm) + rest =~= ss0 + (seq![
                                                        scm,
                                                    ] + rest));
                                                }
                                            }
                                            i += 3;
                                        },
                                        Err(e) => {
                                            return Err(e);
                                        },
                                    }
                                },
                                _ => {
                                    return Err(ParseError::MissingBlock(BlockPlace::Scope));
                                },
                            }
                        },
                        _ => {
                            return Err(ParseError::MissingLiteral(NamePlace::Scope));
                        },
                    }
                } else {
                    return Err(ParseError::UnexpectedKeyword);
                }
            },
            _ => {
                return Err(ParseError::MissingKeyword(KeywordPlace::TopLevel));
            },
        }
    }
    proof {
        if let Ok(rest) = parse_scopes_spec(tv, i as int) {
            assert(describes_view(statements@) + rest =~= describes_view(statements@));
        }
    }
    Ok(statements)
}

} // verus!
