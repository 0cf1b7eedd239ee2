//! The specification tree and its expansion into generated test code.
//!
//! The parser builds [`DescribeStatement`] nodes (scopes) whose ordered
//! children are [`Container`]s: nested scopes or [`Test`] cases. The expander
//! walks that tree depth-first and emits one module per scope and one test
//! function per test case. Contracts speak of the models [`ScopeM`],
//! [`ContainerM`], [`TestM`] and of the spec-level expansion functions.

use vstd::prelude::*;
use vstd::string::StringExecFns;

use crate::token::{
    append_tokens, copy_tokens, lemma_tokens_view_concat, lemma_tokens_view_push, token_view,
    tokens_view, Delim, Token, TokenM,
};

verus! {

/// A test case: an `it` node. Its body is an opaque token span copied
/// verbatim into the generated test function.
#[derive(Debug, PartialEq)]
pub struct Test {
    /// The sanitized identifier of the test.
    pub name: String,
    /// The opaque body span.
    pub container: Vec<Token>,
}

/// Model of a test case.
pub struct TestM {
    /// Model of [`Test::name`].
    pub name: Seq<char>,
    /// Model of [`Test::container`].
    pub container: Seq<TokenM>,
}

/// A scope: a `describe`/`context` node with its hooks and ordered children.
#[derive(Debug, PartialEq)]
pub struct DescribeStatement {
    /// The sanitized identifier of the scope.
    pub name: String,
    /// The ordered children: nested scopes and test cases.
    pub containers: Vec<Container>,
    /// The `before` hook's body span, if declared.
    pub before: Option<Vec<Token>>,
    /// The `after` hook's body span, if declared.
    pub after: Option<Vec<Token>>,
    /// The `subject` hook's expression span, if declared.
    pub subject: Option<Vec<Token>>,
}

/// Model of a scope.
pub struct ScopeM {
    /// Model of [`DescribeStatement::name`].
    pub name: Seq<char>,
    /// Model of [`DescribeStatement::containers`].
    pub containers: Seq<ContainerM>,
    /// Model of [`DescribeStatement::before`].
    pub before: Option<Seq<TokenM>>,
    /// Model of [`DescribeStatement::after`].
    pub after: Option<Seq<TokenM>>,
    /// Model of [`DescribeStatement::subject`].
    pub subject: Option<Seq<TokenM>>,
}

/// One child of a scope: a nested scope or a test case.
#[derive(Debug, PartialEq)]
pub enum Container {
    /// A nested scope.
    Describe(DescribeStatement),
    /// A test case.
    Test(Test),
}

/// Model of a container.
pub enum ContainerM {
    /// Model of [`Container::Describe`].
    Describe(ScopeM),
    /// Model of [`Container::Test`].
    Test(TestM),
}

/// The hook slots gathered while parsing the prefix of a scope's block. Each
/// slot holds at most one span; a later declaration of the same hook kind
/// overwrites an earlier one.
#[derive(Debug, PartialEq)]
pub struct Callbacks {
    /// The `before` hook's body span, if declared.
    pub before: Option<Vec<Token>>,
    /// The `after` hook's body span, if declared.
    pub after: Option<Vec<Token>>,
    /// The `subject` hook's expression span, if declared.
    pub subject: Option<Vec<Token>>,
}

/// Model of the hook slots.
pub struct CallbacksM {
    /// Model of [`Callbacks::before`].
    pub before: Option<Seq<TokenM>>,
    /// Model of [`Callbacks::after`].
    pub after: Option<Seq<TokenM>>,
    /// Model of [`Callbacks::subject`].
    pub subject: Option<Seq<TokenM>>,
}

/// The model of an optional token span.
pub open spec fn opt_tokens_view(o: Option<Vec<Token>>) -> Option<Seq<TokenM>> {
    match o {
        Some(v) => Some(tokens_view(v@)),
        None => None,
    }
}

/// The model of a test case.
pub open spec fn test_view(t: Test) -> TestM {
    TestM { name: t.name@, container: tokens_view(t.container@) }
}

/// The model of a scope.
pub open spec fn describe_view(d: DescribeStatement) -> ScopeM
    decreases d,
{
    ScopeM {
        name: d.name@,
        containers: containers_view(d.containers@),
        before: opt_tokens_view(d.before),
        after: opt_tokens_view(d.after),
        subject: opt_tokens_view(d.subject),
    }
}

/// The model of a container.
pub open spec fn container_view(c: Container) -> ContainerM
    decreases c,
{
    match c {
        Container::Describe(d) => ContainerM::Describe(describe_view(d)),
        Container::Test(t) => ContainerM::Test(test_view(t)),
    }
}

/// The model of a container sequence, element by element.
pub open spec fn containers_view(s: Seq<Container>) -> Seq<ContainerM>
    decreases s,
{
    if s.len() == 0 {
        Seq::empty()
    } else {
        seq![container_view(s[0])] + containers_view(s.subrange(1, s.len() as int))
    }
}

/// The model of a scope sequence, element by element.
pub open spec fn describes_view(s: Seq<DescribeStatement>) -> Seq<ScopeM>
    decreases s,
{
    if s.len() == 0 {
        Seq::empty()
    } else {
        seq![describe_view(s[0])] + describes_view(s.subrange(1, s.len() as int))
    }
}

impl View for Test {
    type V = TestM;

    open spec fn view(&self) -> TestM {
        test_view(*self)
    }
}

impl View for DescribeStatement {
    type V = ScopeM;

    open spec fn view(&self) -> ScopeM {
        describe_view(*self)
    }
}

impl View for Container {
    type V = ContainerM;

    open spec fn view(&self) -> ContainerM {
        container_view(*self)
    }
}

impl View for Callbacks {
    type V = CallbacksM;

    open spec fn view(&self) -> CallbacksM {
        CallbacksM {
            before: opt_tokens_view(self.before),
            after: opt_tokens_view(self.after),
            subject: opt_tokens_view(self.subject),
        }
    }
}

impl Default for Callbacks {
    /// The empty hook slots: nothing declared yet.
    fn default() -> (r: Callbacks)
        ensures
            r@ == (CallbacksM { before: None, after: None, subject: None }),
    {
        Callbacks { before: None, after: None, subject: None }
    }
}

/// Pushing a container onto a sequence pushes its model onto the model.
pub broadcast proof fn lemma_containers_view_push(s: Seq<Container>, c: Container)
    ensures
        #[trigger] containers_view(s.push(c)) == containers_view(s).push(container_view(c)),
    decreases s.len(),
{
    if s.len() == 0 {
        assert(s =~= Seq::<Container>::empty());
        assert(s.push(c).subrange(1, s.push(c).len() as int) =~= s);
        assert(containers_view(s.push(c)) =~= containers_view(s).push(container_view(c)));
    } else {
        let sub = s.subrange(1, s.len() as int);
        assert(s.push(c).subrange(1, s.push(c).len() as int) =~= sub.push(c));
        lemma_containers_view_push(sub, c);
        assert(containers_view(s.push(c)) =~= containers_view(s).push(container_view(c)));
    }
}

/// Pushing a scope onto a sequence pushes its model onto the model.
pub broadcast proof fn lemma_describes_view_push(s: Seq<DescribeStatement>, d: DescribeStatement)
    ensures
        #[trigger] describes_view(s.push(d)) == describes_view(s).push(describe_view(d)),
    decreases s.len(),
{
    if s.len() == 0 {
        assert(s =~= Seq::<DescribeStatement>::empty());
        assert(s.push(d).subrange(1, s.push(d).len() as int) =~= s);
        assert(describes_view(s.push(d)) =~= describes_view(s).push(describe_view(d)));
    } else {
        let sub = s.subrange(1, s.len() as int);
        assert(s.push(d).subrange(1, s.push(d).len() as int) =~= sub.push(d));
        lemma_describes_view_push(sub, d);
        assert(describes_view(s.push(d)) =~= describes_view(s).push(describe_view(d)));
    }
}

/// The tokens of `#[allow(unused_imports)] use super::*;` — the preamble of
/// every generated module, which lets test bodies reach items of the
/// enclosing scope.
pub open spec fn mod_header_spec() -> Seq<TokenM> {
    seq![
        TokenM::Punct('#', false),
        TokenM::Group(
            Delim::Bracket,
            seq![
                TokenM::Ident("allow"@),
                TokenM::Group(Delim::Paren, seq![TokenM::Ident("unused_imports"@)]),
            ],
        ),
        TokenM::Ident("use"@),
        TokenM::Ident("super"@),
        TokenM::Punct(':', true),
        TokenM::Punct(':', false),
        TokenM::Punct('*', false),
        TokenM::Punct(';', false),
    ]
}

/// The generated binding statement of a `subject` hook:
/// `let subject = (<expression>);`. Absent subject generates nothing. The
/// binding is spliced into every test function of the scope, so the subject
/// is evaluated once per test invocation.
pub open spec fn subject_binding_spec(subject: Option<Seq<TokenM>>) -> Seq<TokenM> {
    match subject {
        Some(s) => seq![
            TokenM::Ident("let"@),
            TokenM::Ident("subject"@),
            TokenM::Punct('=', false),
            TokenM::Group(Delim::Paren, s),
            TokenM::Punct(';', false),
        ],
        None => Seq::empty(),
    }
}

/// An optional span, defaulted to the empty span when absent.
pub open spec fn opt_span_spec(o: Option<Seq<TokenM>>) -> Seq<TokenM> {
    match o {
        Some(s) => s,
        None => Seq::empty(),
    }
}

/// The generated tokens of one test case:
/// `#[test] fn <name>() { <before> <subject binding> <body> <after> }`.
/// `before`, `after` and `subject` arrive already resolved: the spans the
/// enclosing scope hands to each of its direct test cases.
pub open spec fn test_expand_spec(
    t: TestM,
    before: Seq<TokenM>,
    after: Seq<TokenM>,
    subject: Seq<TokenM>,
) -> Seq<TokenM> {
    seq![
        TokenM::Punct('#', false),
        TokenM::Group(Delim::Bracket, seq![TokenM::Ident("test"@)]),
        TokenM::Ident("fn"@),
        TokenM::Ident(t.name),
        TokenM::Group(Delim::Paren, Seq::empty()),
        TokenM::Group(Delim::Brace, before + subject + t.container + after),
    ]
}

/// The generated tokens of one scope: a module named by the scope's
/// sanitized identifier, holding the preamble and the generated units of the
/// scope's children in source order. Hooks apply only to the test cases
/// declared directly in this scope: a nested scope is expanded with its own
/// hooks alone and inherits nothing.
pub open spec fn scope_expand_spec(sc: ScopeM) -> Seq<TokenM>
    decreases sc, 1int,
{
    seq![
        TokenM::Ident("mod"@),
        TokenM::Ident(sc.name),
        TokenM::Group(
            Delim::Brace,
            mod_header_spec() + containers_expand_spec(
                sc.containers,
                opt_span_spec(sc.before),
                opt_span_spec(sc.after),
                subject_binding_spec(sc.subject),
            ),
        ),
    ]
}

/// The concatenated generated units of a scope's children, in source order.
pub open spec fn containers_expand_spec(
    cs: Seq<ContainerM>,
    before: Seq<TokenM>,
    after: Seq<TokenM>,
    subject: Seq<TokenM>,
) -> Seq<TokenM>
    decreases cs, 0int,
{
    if cs.len() == 0 {
        Seq::empty()
    } else {
        container_expand_spec(cs[0], before, after, subject) + containers_expand_spec(
            cs.subrange(1, cs.len() as int),
            before,
            after,
            subject,
        )
    }
}

/// The generated unit of one child: a nested module or a test function.
pub open spec fn container_expand_spec(
    c: ContainerM,
    before: Seq<TokenM>,
    after: Seq<TokenM>,
    subject: Seq<TokenM>,
) -> Seq<TokenM>
    decreases c, 2int,
{
    match c {
        ContainerM::Describe(sc) => scope_expand_spec(sc),
        ContainerM::Test(t) => test_expand_spec(t, before, after, subject),
    }
}

/// The concatenated generated modules of a sequence of top-level scopes.
pub open spec fn scopes_expand_spec(scs: Seq<ScopeM>) -> Seq<TokenM>
    decreases scs,
{
    if scs.len() == 0 {
        Seq::empty()
    } else {
        scope_expand_spec(scs[0]) + scopes_expand_spec(scs.subrange(1, scs.len() as int))
    }
}

/// Appending a container appends its generated unit.
pub broadcast proof fn lemma_containers_expand_snoc(
    cs: Seq<ContainerM>,
    c: ContainerM,
    before: Seq<TokenM>,
    after: Seq<TokenM>,
    subject: Seq<TokenM>,
)
    ensures
        #[trigger] containers_expand_spec(cs.push(c), before, after, subject)
            == containers_expand_spec(cs, before, after, subject) + container_expand_spec(
            c,
            before,
            after,
            subject,
        ),
    decreases cs.len(),
{
    if cs.len() == 0 {
        assert(cs.push(c).subrange(1, cs.push(c).len() as int) =~= Seq::<ContainerM>::empty());
        assert(cs =~= Seq::<ContainerM>::empty());
        assert(containers_expand_spec(cs.push(c), before, after, subject) =~= containers_expand_spec(
            cs,
            before,
            after,
            subject,
        ) + container_expand_spec(c, before, after, subject));
    } else {
        let sub = cs.subrange(1, cs.len() as int);
        assert(cs.push(c).subrange(1, cs.push(c).len() as int) =~= sub.push(c));
        lemma_containers_expand_snoc(sub, c, before, after, subject);
        assert(containers_expand_spec(cs.push(c), before, after, subject) =~= containers_expand_spec(
            cs,
            before,
            after,
            subject,
        ) + container_expand_spec(c, before, after, subject));
    }
}

/// Appending a scope appends its generated module.
pub broadcast proof fn lemma_scopes_expand_snoc(scs: Seq<ScopeM>, sc: ScopeM)
    ensures
        #[trigger] scopes_expand_spec(scs.push(sc)) == scopes_expand_spec(scs) + scope_expand_spec(
            sc,
        ),
    decreases scs.len(),
{
    if scs.len() == 0 {
        assert(scs.push(sc).subrange(1, scs.push(sc).len() as int) =~= Seq::<ScopeM>::empty());
        assert(scs =~= Seq::<ScopeM>::empty());
        assert(scopes_expand_spec(scs.push(sc)) =~= scopes_expand_spec(scs) + scope_expand_spec(
            sc,
        ));
    } else {
        let sub = scs.subrange(1, scs.len() as int);
        assert(scs.push(sc).subrange(1, scs.push(sc).len() as int) =~= sub.push(sc));
        lemma_scopes_expand_snoc(sub, sc);
        assert(scopes_expand_spec(scs.push(sc)) =~= scopes_expand_spec(scs) + scope_expand_spec(
            sc,
        ));
    }
}

/// An identifier token with the given text.
fn ident_token(text: &str) -> (t: Token)
    ensures
        token_view(t) == TokenM::Ident(text@),
{
    Token::Ident(text.to_owned())
}

/// The executable preamble of a generated module; see [`mod_header_spec`].
fn mod_header() -> (r: Vec<Token>)
    ensures
        tokens_view(r@) == mod_header_spec(),
{
    broadcast use lemma_tokens_view_push;

    let mut attr_arg: Vec<Token> = Vec::new();
    attr_arg.push(ident_token("unused_imports"));
    let ghost aa = attr_arg@;
    let mut attr: Vec<Token> = Vec::new();
    attr.push(ident_token("allow"));
    attr.push(Token::Group(Delim::Paren, attr_arg));
    let ghost at = attr@;
    let mut r: Vec<Token> = Vec::new();
    r.push(Token::Punct('#', false));
    r.push(Token::Group(Delim::Bracket, attr));
    r.push(ident_token("use"));
    r.push(ident_token("super"));
    r.push(Token::Punct(':', true));
    r.push(Token::Punct(':', false));
    r.push(Token::Punct('*', false));
    r.push(Token::Punct(';', false));
    proof {
        assert(tokens_view(aa) =~= seq![TokenM::Ident("unused_imports"@)]);
        assert(tokens_view(at) =~= seq![
            TokenM::Ident("allow"@),
            TokenM::Group(Delim::Paren, seq![TokenM::Ident("unused_imports"@)]),
        ]);
        assert(tokens_view(r@) =~= mod_header_spec());
    }
    r
}

/// The executable subject binding; see [`subject_binding_spec`].
fn subject_binding(subject: &Option<Vec<Token>>) -> (r: Vec<Token>)
    ensures
        tokens_view(r@) == subject_binding_spec(opt_tokens_view(*subject)),
{
    broadcast use lemma_tokens_view_push;

    match subject {
        Some(s) => {
            let mut r: Vec<Token> = Vec::new();
            r.push(ident_token("let"));
            r.push(ident_token("subject"));
            r.push(Token::Punct('=', false));
            r.push(Token::Group(Delim::Paren, copy_tokens(s)));
            r.push(Token::Punct(';', false));
            proof {
                assert(tokens_view(r@) =~= subject_binding_spec(opt_tokens_view(*subject)));
            }
            r
        },
        None => {
            let r: Vec<Token> = Vec::new();
            proof {
                assert(tokens_view(r@) =~= subject_binding_spec(opt_tokens_view(*subject)));
            }
            r
        },
    }
}

/// The resolved span of an optional hook; see [`opt_span_spec`].
fn opt_span(o: &Option<Vec<Token>>) -> (r: Vec<Token>)
    ensures
        tokens_view(r@) == opt_span_spec(opt_tokens_view(*o)),
{
    match o {
        Some(v) => copy_tokens(v),
        None => {
            let r: Vec<Token> = Vec::new();
            proof {
                assert(tokens_view(r@) =~= Seq::<TokenM>::empty());
            }
            r
        },
    }
}

impl Test {
    /// Renders the test case as a generated test function. The body splices,
    /// in this fixed order: the scope's `before` span, the scope's subject
    /// binding, the test's own opaque body, the scope's `after` span.
    pub fn expand(&self, before: Vec<Token>, after: Vec<Token>, subject: Vec<Token>) -> (r: Vec<
        Token,
    >)
        ensures
            tokens_view(r@) == test_expand_spec(
                test_view(*self),
                tokens_view(before@),
                tokens_view(after@),
                tokens_view(subject@),
            ),
    {
        broadcast use {lemma_tokens_view_push, lemma_tokens_view_concat};

        let ghost bm = tokens_view(before@);
        let ghost am = tokens_view(after@);
        let ghost sm = tokens_view(subject@);
        let mut body = before;
        let mut subj = subject;
        body.append(&mut subj);
        append_tokens(&mut body, &self.container);
        let mut aft = after;
        body.append(&mut aft);
        proof {
            assert(tokens_view(body@) =~= bm + sm + tokens_view(self.container@) + am);
        }
        let ghost bodym = tokens_view(body@);

        let mut attr: Vec<Token> = Vec::new();
        attr.push(ident_token("test"));
        let ghost at = attr@;
        let mut r: Vec<Token> = Vec::new();
        r.push(Token::Punct('#', false));
        r.push(Token::Group(Delim::Bracket, attr));
        r.push(ident_token("fn"));
        r.push(Token::Ident(self.name.clone()));
        r.push(Token::Group(Delim::Paren, Vec::new()));
        r.push(Token::Group(Delim::Brace, body));
        proof {
            assert(tokens_view(at) =~= seq![TokenM::Ident("test"@)]);
            assert(tokens_view(r@) =~= seq![
                TokenM::Punct('#', false),
                TokenM::Group(Delim::Bracket, seq![TokenM::Ident("test"@)]),
                TokenM::Ident("fn"@),
                TokenM::Ident(self.name@),
                TokenM::Group(Delim::Paren, Seq::<TokenM>::empty()),
                TokenM::Group(Delim::Brace, bodym),
            ]);
            assert(tokens_view(r@) =~= test_expand_spec(
                test_view(*self),
                tokens_view(before@),
                tokens_view(after@),
                tokens_view(subject@),
            ));
        }
        r
    }
}

impl DescribeStatement {
    /// Builds a scope node from its parts.
    pub fn new(
        name: String,
        containers: Vec<Container>,
        before: Option<Vec<Token>>,
        after: Option<Vec<Token>>,
        subject: Option<Vec<Token>>,
    ) -> (r: DescribeStatement)
        ensures
            r == (DescribeStatement { name, containers, before, after, subject }),
    {
        DescribeStatement { name, containers, before, after, subject }
    }

    /// Expands a sequence of top-level scopes and concatenates the generated
    /// modules in source order.
    pub fn expands(describe_statements: Vec<DescribeStatement>) -> (r: Vec<Token>)
        ensures
            tokens_view(r@) == scopes_expand_spec(describes_view(describe_statements@)),
    {
        broadcast use {lemma_describes_view_push, lemma_scopes_expand_snoc};

        let mut r: Vec<Token> = Vec::new();
        let mut i: usize = 0;
        proof {
            assert(describe_statements@.subrange(0, 0) =~= Seq::<DescribeStatement>::empty());
            assert(tokens_view(r@) =~= Seq::<TokenM>::empty());
        }
        while i < describe_statements.len()
            invariant
                i <= describe_statements.len(),
                tokens_view(r@) == scopes_expand_spec(
                    describes_view(describe_statements@.subrange(0, i as int)),
                ),
            decreases describe_statements.len() - i,
        {
            broadcast use {
                lemma_tokens_view_concat,
                lemma_describes_view_push,
                lemma_scopes_expand_snoc,
            };

            let mut piece = describe_statements[i].expand();
            r.append(&mut piece);
            proof {
                assert(describe_statements@.subrange(0, i as int + 1)
                    =~= describe_statements@.subrange(0, i as int).push(
                    describe_statements@[i as int],
                ));
            }
            i += 1;
        }
        proof {
            assert(describe_statements@.subrange(0, i as int) =~= describe_statements@);
        }
        r
    }

    /// Expands this scope into its generated module: `mod <name> { ... }`
    /// holding the preamble and the generated units of the children.
    pub fn expand(&self) -> (r: Vec<Token>)
        ensures
            tokens_view(r@) == scope_expand_spec(describe_view(*self)),
        decreases *self,
    {
        broadcast use {lemma_tokens_view_push, lemma_tokens_view_concat};

        let before = opt_span(&self.before);
        let after = opt_span(&self.after);
        let subject = subject_binding(&self.subject);
        let mut inner = mod_header();
        let mut units = Self::expand_containers(&self.containers, before, after, subject);
        inner.append(&mut units);
        proof {
            assert(tokens_view(inner@) =~= mod_header_spec() + containers_expand_spec(
                containers_view(self.containers@),
                opt_span_spec(opt_tokens_view(self.before)),
                opt_span_spec(opt_tokens_view(self.after)),
                subject_binding_spec(opt_tokens_view(self.subject)),
            ));
        }
        let ghost im = tokens_view(inner@);

        let mut r: Vec<Token> = Vec::new();
        r.push(ident_token("mod"));
        r.push(Token::Ident(self.name.clone()));
        r.push(Token::Group(Delim::Brace, inner));
        proof {
            assert(tokens_view(r@) =~= seq![
                TokenM::Ident("mod"@),
                TokenM::Ident(self.name@),
                TokenM::Group(Delim::Brace, im),
            ]);
            assert(tokens_view(r@) =~= scope_expand_spec(describe_view(*self)));
        }
        r
    }

    /// Expands the children of one scope, in source order, splicing the
    /// scope's resolved hook spans into each direct test case.
    fn expand_containers(
        containers: &Vec<Container>,
        before: Vec<Token>,
        after: Vec<Token>,
        subject: Vec<Token>,
    ) -> (r: Vec<Token>)
        ensures
            tokens_view(r@) == containers_expand_spec(
                containers_view(containers@),
                tokens_view(before@),
                tokens_view(after@),
                tokens_view(subject@),
            ),
        decreases containers@,
    {
        broadcast use {lemma_containers_view_push, lemma_containers_expand_snoc};

        let ghost bm = tokens_view(before@);
        let ghost am = tokens_view(after@);
        let ghost sm = tokens_view(subject@);
        let mut r: Vec<Token> = Vec::new();
        let mut i: usize = 0;
        proof {
            assert(containers@.subrange(0, 0) =~= Seq::<Container>::empty());
            assert(tokens_view(r@) =~= Seq::<TokenM>::empty());
        }
        while i < containers.len()
            invariant
                i <= containers.len(),
                tokens_view(before@) == bm,
                tokens_view(after@) == am,
                tokens_view(subject@) == sm,
                tokens_view(r@) == containers_expand_spec(
                    containers_view(containers@.subrange(0, i as int)),
                    bm,
                    am,
                    sm,
                ),
            decreases containers.len() - i,
        {
            broadcast use {
                lemma_tokens_view_concat,
                lemma_containers_view_push,
                lemma_containers_expand_snoc,
            };

            let mut piece = match &containers[i] {
                Container::Describe(describe) => describe.expand(),
                Container::Test(test) => test.expand(
                    copy_tokens(&before),
                    copy_tokens(&after),
                    copy_tokens(&subject),
                ),
            };
            r.append(&mut piece);
            proof {
                assert(containers@.subrange(0, i as int + 1) =~= containers@.subrange(
                    0,
                    i as int,
                ).push(containers@[i as int]));
            }
            i += 1;
        }
        proof {
            assert(containers@.subrange(0, i as int) =~= containers@);
        }
        r
    }
}

} // verus!
