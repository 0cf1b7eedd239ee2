//! Laws of the compiler, stated over the spec-level model and proved once
//! and for all: determinism, the fatal-error guarantees of the grammar, hook
//! overwriting, unbounded nesting, and the independence of sibling tests.

use vstd::prelude::*;

use crate::errors::{NamePlace, ParseError};
use crate::parser::{
    group_tokens, ident_text, is_hook_keyword, keyword_spec, parse_body_spec,
    parse_containers_spec, parse_scopes_spec, parse_spec, scope_from_block_spec, snake_of,
    store_hook, Keyword,
};
use crate::ruspec_spec;
use crate::token::{Delim, TokenM};
use crate::types::{
    container_expand_spec, containers_expand_spec, mod_header_spec, opt_span_spec,
    scope_expand_spec, scopes_expand_spec, subject_binding_spec, test_expand_spec, CallbacksM,
    ContainerM, ScopeM, TestM,
};

verus! {

/// Compilation is deterministic. The contract of the executable entry point
/// says that the model of its output equals `ruspec_spec` of its input's
/// model; this lemma records the other half: `ruspec_spec` is a function of
/// the input's token model alone. Together they give that identical input
/// always yields identical output.
pub proof fn lemma_compilation_deterministic(a: Seq<TokenM>, b: Seq<TokenM>)
    requires
        a == b,
    ensures
        ruspec_spec(a) == ruspec_spec(b),
{
}

/// A scope whose block holds no hooks and no containers — an empty block —
/// always fails with `EmptyScope`, whatever the scope's name.
pub proof fn lemma_empty_scope_fails(name_text: Seq<char>)
    ensures
        scope_from_block_spec(name_text, Seq::empty()) == Err::<ScopeM, ParseError>(
            ParseError::EmptyScope,
        ),
{
}

/// A whole input consisting of one scope declaration with an empty block
/// fails with `EmptyScope`.
pub proof fn lemma_empty_scope_fails_from_top(w: Seq<char>, name_text: Seq<char>, d: Delim)
    requires
        keyword_spec(w) == Keyword::Describe,
    ensures
        parse_spec(
            seq![TokenM::Ident(w), TokenM::Literal(name_text), TokenM::Group(d, Seq::empty())],
        ) == Err::<Seq<ScopeM>, ParseError>(ParseError::EmptyScope),
{
    let s = seq![TokenM::Ident(w), TokenM::Literal(name_text), TokenM::Group(d, Seq::empty())];
    assert(group_tokens(s[2]) =~= Seq::<TokenM>::empty());
    assert(parse_scopes_spec(s, 0) == Err::<Seq<ScopeM>, ParseError>(ParseError::EmptyScope));
}

/// A scope declaration whose name literal is absent — the declaring keyword
/// is followed by no token or by one that is not a literal — always fails
/// with `MissingLiteral`, at top level and in a container list alike.
pub proof fn lemma_missing_literal_fails(s: Seq<TokenM>, i: int)
    requires
        0 <= i < s.len(),
        s[i] is Ident,
        keyword_spec(ident_text(s[i])) == Keyword::Describe,
        !(i + 1 < s.len() && s[i + 1] is Literal),
    ensures
        parse_scopes_spec(s, i) == Err::<Seq<ScopeM>, ParseError>(
            ParseError::MissingLiteral(NamePlace::Scope),
        ),
        parse_containers_spec(s, i) == Err::<Seq<ContainerM>, ParseError>(
            ParseError::MissingLiteral(NamePlace::Scope),
        ),
{
}

/// A scope declaration whose block is absent — the name literal is followed
/// by no token or by one that is not a group — always fails with
/// `MissingBlock`, at top level and in a container list alike.
pub proof fn lemma_missing_block_fails(s: Seq<TokenM>, i: int)
    requires
        0 <= i < s.len(),
        s[i] is Ident,
        keyword_spec(ident_text(s[i])) == Keyword::Describe,
        i + 1 < s.len() && s[i + 1] is Literal,
        !(i + 2 < s.len() && s[i + 2] is Group),
    ensures
        parse_scopes_spec(s, i) == Err::<Seq<ScopeM>, ParseError>(
            ParseError::MissingBlock(crate::errors::BlockPlace::Scope),
        ),
        parse_containers_spec(s, i) == Err::<Seq<ContainerM>, ParseError>(
            ParseError::MissingBlock(crate::errors::BlockPlace::Scope),
        ),
{
}

/// Declaring the same hook kind twice in one scope keeps only the last
/// declaration's span: parsing from the first declaration equals parsing
/// from past both declarations with only the second span stored, whatever
/// the first span held.
pub proof fn lemma_hook_overwrite(
    s: Seq<TokenM>,
    i: int,
    cb: CallbacksM,
    w1: Seq<char>,
    w2: Seq<char>,
)
    requires
        0 <= i,
        i + 3 < s.len(),
        s[i] == TokenM::Ident(w1),
        s[i + 2] == TokenM::Ident(w2),
        keyword_spec(w1) == keyword_spec(w2),
        is_hook_keyword(keyword_spec(w1)),
        s[i + 1] is Group,
        s[i + 3] is Group,
    ensures
        parse_body_spec(s, i, cb) == parse_body_spec(
            s,
            i + 4,
            store_hook(cb, keyword_spec(w2), group_tokens(s[i + 3])),
        ),
{
    let k = keyword_spec(w1);
    let cb1 = store_hook(cb, k, group_tokens(s[i + 1]));
    assert(parse_body_spec(s, i, cb) == parse_body_spec(s, i + 2, cb1));
    assert(store_hook(cb1, k, group_tokens(s[i + 3])) == store_hook(
        cb,
        k,
        group_tokens(s[i + 3]),
    ));
}

/// The block interior of a chain of `n` nested scopes: for `n == 1` one test
/// case, for larger `n` one nested scope declaration.
pub open spec fn chain_inner(
    n: nat,
    w: Seq<char>,
    name_text: Seq<char>,
    body: Seq<TokenM>,
) -> Seq<TokenM>
    decreases n,
{
    if n <= 1 {
        seq![
            TokenM::Ident("it"@),
            TokenM::Literal(name_text),
            TokenM::Group(Delim::Brace, body),
        ]
    } else {
        seq![
            TokenM::Ident(w),
            TokenM::Literal(name_text),
            TokenM::Group(Delim::Brace, chain_inner((n - 1) as nat, w, name_text, body)),
        ]
    }
}

/// A chain of `n` nested scope declarations whose innermost block holds one
/// test case.
pub open spec fn nested_chain_input(
    n: nat,
    w: Seq<char>,
    name_text: Seq<char>,
    body: Seq<TokenM>,
) -> Seq<TokenM> {
    seq![
        TokenM::Ident(w),
        TokenM::Literal(name_text),
        TokenM::Group(Delim::Brace, chain_inner(n, w, name_text, body)),
    ]
}

/// The scope tree of the chain: `n` nested scopes, no hooks, one test case
/// at the innermost level.
pub open spec fn nested_chain_scope(n: nat, name_text: Seq<char>, body: Seq<TokenM>) -> ScopeM
    decreases n,
{
    ScopeM {
        name: snake_of(name_text),
        containers: if n <= 1 {
            seq![
                ContainerM::Test(TestM { name: snake_of(name_text), container: body }),
            ]
        } else {
            seq![
                ContainerM::Describe(nested_chain_scope((n - 1) as nat, name_text, body)),
            ]
        },
        before: None,
        after: None,
        subject: None,
    }
}

/// The generated code of the chain: `n` nested modules, and at the innermost
/// level exactly one test function, whose body is the test's own body alone.
pub open spec fn nested_chain_output(n: nat, name_text: Seq<char>, body: Seq<TokenM>) -> Seq<
    TokenM,
>
    decreases n,
{
    seq![
        TokenM::Ident("mod"@),
        TokenM::Ident(snake_of(name_text)),
        TokenM::Group(
            Delim::Brace,
            mod_header_spec() + if n <= 1 {
                test_expand_spec(
                    TestM { name: snake_of(name_text), container: body },
                    Seq::empty(),
                    Seq::empty(),
                    Seq::empty(),
                )
            } else {
                nested_chain_output((n - 1) as nat, name_text, body)
            },
        ),
    ]
}

/// `it` is a keyword of its own, distinct from every other keyword.
proof fn lemma_it_keyword()
    ensures
        keyword_spec("it"@) == Keyword::It,
{
    reveal_strlit("it");
    reveal_strlit("describe");
    reveal_strlit("context");
    reveal_strlit("before");
    reveal_strlit("after");
    assert("it"@.len() == 2);
    assert("describe"@.len() == 8);
    assert("context"@.len() == 7);
    assert("before"@.len() == 6);
    assert("after"@.len() == 5);
}

/// Parsing one level of the chain yields one level of the scope tree.
proof fn lemma_chain_parses(n: nat, w: Seq<char>, name_text: Seq<char>, body: Seq<TokenM>)
    requires
        n >= 1,
        keyword_spec(w) == Keyword::Describe,
    ensures
        scope_from_block_spec(name_text, chain_inner(n, w, name_text, body)) == Ok::<
            ScopeM,
            ParseError,
        >(nested_chain_scope(n, name_text, body)),
    decreases n,
{
    let inner = chain_inner(n, w, name_text, body);
    assert(inner.len() == 3);
    if n <= 1 {
        lemma_it_keyword();
        assert(parse_containers_spec(inner, 3) == Ok::<Seq<ContainerM>, ParseError>(Seq::empty()));
        assert(parse_containers_spec(inner, 0) == Ok::<Seq<ContainerM>, ParseError>(
            seq![ContainerM::Test(TestM { name: snake_of(name_text), container: body })]
                + Seq::empty(),
        ));
        assert(seq![ContainerM::Test(TestM { name: snake_of(name_text), container: body })]
            + Seq::empty() =~= nested_chain_scope(n, name_text, body).containers);
    } else {
        lemma_chain_parses((n - 1) as nat, w, name_text, body);
        assert(group_tokens(inner[2]) == chain_inner((n - 1) as nat, w, name_text, body));
        assert(parse_containers_spec(inner, 3) == Ok::<Seq<ContainerM>, ParseError>(Seq::empty()));
        assert(parse_containers_spec(inner, 0) == Ok::<Seq<ContainerM>, ParseError>(
            seq![ContainerM::Describe(nested_chain_scope((n - 1) as nat, name_text, body))]
                + Seq::empty(),
        ));
        assert(seq![ContainerM::Describe(nested_chain_scope((n - 1) as nat, name_text, body))]
            + Seq::empty() =~= nested_chain_scope(n, name_text, body).containers);
    }
}

/// Expanding one level of the scope tree yields one level of the generated
/// nesting.
proof fn lemma_chain_expands(n: nat, name_text: Seq<char>, body: Seq<TokenM>)
    requires
        n >= 1,
    ensures
        scope_expand_spec(nested_chain_scope(n, name_text, body)) == nested_chain_output(
            n,
            name_text,
            body,
        ),
    decreases n,
{
    let sc = nested_chain_scope(n, name_text, body);
    let b = opt_span_spec(sc.before);
    let a = opt_span_spec(sc.after);
    let su = subject_binding_spec(sc.subject);
    let cs = sc.containers;
    assert(cs.len() == 1);
    assert(cs.subrange(1, cs.len() as int) =~= Seq::<ContainerM>::empty());
    assert(containers_expand_spec(Seq::<ContainerM>::empty(), b, a, su) == Seq::<TokenM>::empty());
    assert(containers_expand_spec(cs, b, a, su) == container_expand_spec(cs[0], b, a, su)
        + containers_expand_spec(cs.subrange(1, cs.len() as int), b, a, su));
    assert(b == Seq::<TokenM>::empty());
    assert(a == Seq::<TokenM>::empty());
    assert(su == Seq::<TokenM>::empty());
    if n <= 1 {
        assert(cs[0] == ContainerM::Test(TestM { name: snake_of(name_text), container: body }));
        assert(container_expand_spec(cs[0], b, a, su) == test_expand_spec(
            TestM { name: snake_of(name_text), container: body },
            Seq::empty(),
            Seq::empty(),
            Seq::empty(),
        ));
        assert(containers_expand_spec(cs, b, a, su) =~= test_expand_spec(
            TestM { name: snake_of(name_text), container: body },
            Seq::empty(),
            Seq::empty(),
            Seq::empty(),
        ));
    } else {
        lemma_chain_expands((n - 1) as nat, name_text, body);
        assert(cs[0] == ContainerM::Describe(nested_chain_scope((n - 1) as nat, name_text, body)));
        assert(container_expand_spec(cs[0], b, a, su) == scope_expand_spec(
            nested_chain_scope((n - 1) as nat, name_text, body),
        ));
        assert(containers_expand_spec(cs, b, a, su) =~= nested_chain_output(
            (n - 1) as nat,
            name_text,
            body,
        ));
    }
}

/// Nesting depth is unbounded: for every `n >= 1`, a chain of `n` nested
/// scopes with one test case at the innermost level compiles to `n` nested
/// modules with exactly one test function at the innermost level.
pub proof fn lemma_nesting_depth_unbounded(
    n: nat,
    w: Seq<char>,
    name_text: Seq<char>,
    body: Seq<TokenM>,
)
    requires
        n >= 1,
        keyword_spec(w) == Keyword::Describe,
    ensures
        ruspec_spec(nested_chain_input(n, w, name_text, body)) == Ok::<Seq<TokenM>, ParseError>(
            nested_chain_output(n, name_text, body),
        ),
{
    let s = nested_chain_input(n, w, name_text, body);
    lemma_chain_parses(n, w, name_text, body);
    assert(s.len() == 3);
    assert(s[0] == TokenM::Ident(w));
    assert(s[1] == TokenM::Literal(name_text));
    assert(group_tokens(s[2]) == chain_inner(n, w, name_text, body));
    assert(parse_scopes_spec(s, 0int + 3) == Ok::<Seq<ScopeM>, ParseError>(Seq::empty()));
    let sc = nested_chain_scope(n, name_text, body);
    assert(seq![sc] + Seq::empty() =~= seq![sc]);
    assert(parse_scopes_spec(s, 0) == Ok::<Seq<ScopeM>, ParseError>(seq![sc] + Seq::empty()));
    assert(parse_spec(s) == Ok::<Seq<ScopeM>, ParseError>(seq![sc]));
    lemma_chain_expands(n, name_text, body);
    let out = seq![sc];
    assert(out.subrange(1, out.len() as int) =~= Seq::<ScopeM>::empty());
    assert(scopes_expand_spec(Seq::<ScopeM>::empty()) == Seq::<TokenM>::empty());
    assert(out[0] == sc);
    assert(scopes_expand_spec(out) == scope_expand_spec(sc) + scopes_expand_spec(
        out.subrange(1, out.len() as int),
    ));
    assert(scopes_expand_spec(out) =~= scope_expand_spec(sc));
}

/// Sibling test cases in one scope each receive their own copy of the
/// scope's resolved `before` span, subject binding and `after` span: the
/// expansion embeds the full spans once per generated test function, so
/// what one test does to its copy cannot reach a sibling.
pub proof fn lemma_sibling_tests_get_independent_copies(sc: ScopeM, t1: TestM, t2: TestM)
    requires
        sc.containers == seq![ContainerM::Test(t1), ContainerM::Test(t2)],
    ensures
        scope_expand_spec(sc) == seq![
            TokenM::Ident("mod"@),
            TokenM::Ident(sc.name),
            TokenM::Group(
                Delim::Brace,
                mod_header_spec() + (test_expand_spec(
                    t1,
                    opt_span_spec(sc.before),
                    opt_span_spec(sc.after),
                    subject_binding_spec(sc.subject),
                ) + test_expand_spec(
                    t2,
                    opt_span_spec(sc.before),
                    opt_span_spec(sc.after),
                    subject_binding_spec(sc.subject),
                )),
            ),
        ],
{
    let b = opt_span_spec(sc.before);
    let a = opt_span_spec(sc.after);
    let su = subject_binding_spec(sc.subject);
    let cs = sc.containers;
    assert(cs.len() == 2);
    assert(cs[0] == ContainerM::Test(t1));
    assert(cs[1] == ContainerM::Test(t2));
    let tail = cs.subrange(1, cs.len() as int);
    assert(tail =~= seq![ContainerM::Test(t2)]);
    assert(tail.len() == 1);
    assert(tail[0] == ContainerM::Test(t2));
    assert(tail.subrange(1, tail.len() as int) =~= Seq::<ContainerM>::empty());
    assert(containers_expand_spec(Seq::<ContainerM>::empty(), b, a, su) == Seq::<TokenM>::empty());
    assert(containers_expand_spec(tail, b, a, su) == container_expand_spec(tail[0], b, a, su)
        + containers_expand_spec(tail.subrange(1, tail.len() as int), b, a, su));
    assert(containers_expand_spec(tail, b, a, su) =~= test_expand_spec(t2, b, a, su));
    assert(containers_expand_spec(cs, b, a, su) == container_expand_spec(cs[0], b, a, su)
        + containers_expand_spec(tail, b, a, su));
    assert(containers_expand_spec(cs, b, a, su) =~= test_expand_spec(t1, b, a, su)
        + test_expand_spec(t2, b, a, su));
}

/// `context` is a synonym of `describe`: both words denote the scope
/// keyword, so every grammar decision treats them alike.
pub proof fn lemma_context_is_describe_synonym()
    ensures
        keyword_spec("context"@) == Keyword::Describe,
        keyword_spec("describe"@) == Keyword::Describe,
{
}

} // verus!
