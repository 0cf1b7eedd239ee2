//! Tokens: the input and output alphabet of the compiler.
//!
//! A token is an identifier, a literal, a punctuation character, or a
//! delimited group holding a nested token sequence. Executable code works on
//! [`Token`]; contracts speak of the mathematical model [`TokenM`], reached
//! through [`token_view`] and [`tokens_view`].

use vstd::prelude::*;

verus! {

/// The delimiter of a token group.
#[derive(Clone, Copy, Debug, PartialEq, Eq, Structural)]
pub enum Delim {
    /// `( ... )`
    Paren,
    /// `{ ... }`
    Brace,
    /// `[ ... ]`
    Bracket,
    /// A group without visible delimiters.
    Invisible,
}

/// One lexical token. Group bodies are opaque to the compiler: they are
/// carried around and copied verbatim, never interpreted.
#[derive(Debug, PartialEq)]
pub enum Token {
    /// A word: an identifier or a keyword. Holds its text.
    Ident(String),
    /// A literal. Holds its source text (a string literal keeps its quotes).
    Literal(String),
    /// A punctuation character; the flag says whether it is joined to the
    /// following punctuation character (as the first `:` of `::` is).
    Punct(char, bool),
    /// A delimited group of nested tokens.
    Group(Delim, Vec<Token>),
}

/// The mathematical model of a token: text becomes `Seq<char>`, token
/// sequences become `Seq<TokenM>`.
pub enum TokenM {
    /// Model of [`Token::Ident`].
    Ident(Seq<char>),
    /// Model of [`Token::Literal`].
    Literal(Seq<char>),
    /// Model of [`Token::Punct`].
    Punct(char, bool),
    /// Model of [`Token::Group`].
    Group(Delim, Seq<TokenM>),
}

/// The model of one token.
pub open spec fn token_view(t: Token) -> TokenM
    decreases t,
{
    match t {
        Token::Ident(s) => TokenM::Ident(s@),
        Token::Literal(s) => TokenM::Literal(s@),
        Token::Punct(c, j) => TokenM::Punct(c, j),
        Token::Group(d, ts) => TokenM::Group(d, tokens_view(ts@)),
    }
}

/// The model of a token sequence, element by element.
pub open spec fn tokens_view(s: Seq<Token>) -> Seq<TokenM>
    decreases s,
{
    if s.len() == 0 {
        Seq::empty()
    } else {
        seq![token_view(s[0])] + tokens_view(s.subrange(1, s.len() as int))
    }
}

impl View for Token {
    type V = TokenM;

    open spec fn view(&self) -> TokenM {
        token_view(*self)
    }
}

/// A token sequence and its model have the same length.
pub broadcast proof fn lemma_tokens_view_len(s: Seq<Token>)
    ensures
        (#[trigger] tokens_view(s)).len() == s.len(),
    decreases s.len(),
{
    if s.len() > 0 {
        lemma_tokens_view_len(s.subrange(1, s.len() as int));
    }
}

/// The model of a token sequence holds, at each position, the model of the
/// token at that position.
pub broadcast proof fn lemma_tokens_view_index(s: Seq<Token>, i: int)
    requires
        0 <= i < s.len(),
    ensures
        #[trigger] tokens_view(s)[i] == token_view(s[i]),
    decreases s.len(),
{
    lemma_tokens_view_len(s.subrange(1, s.len() as int));
    if i > 0 {
        lemma_tokens_view_index(s.subrange(1, s.len() as int), i - 1);
    }
}

/// Pushing a token onto a sequence pushes its model onto the model.
pub broadcast proof fn lemma_tokens_view_push(s: Seq<Token>, t: Token)
    ensures
        #[trigger] tokens_view(s.push(t)) == tokens_view(s).push(token_view(t)),
    decreases s.len(),
{
    if s.len() == 0 {
        assert(s =~= Seq::<Token>::empty());
        assert(s.push(t).subrange(1, s.push(t).len() as int) =~= s);
        assert(tokens_view(s.push(t)) =~= tokens_view(s).push(token_view(t)));
    } else {
        let sub = s.subrange(1, s.len() as int);
        assert(s.push(t).subrange(1, s.push(t).len() as int) =~= sub.push(t));
        lemma_tokens_view_push(sub, t);
        assert(tokens_view(s.push(t)) == seq![token_view(s.push(t)[0])] + tokens_view(
            s.push(t).subrange(1, s.push(t).len() as int),
        ));
        assert(s.push(t)[0] == s[0]);
        assert(tokens_view(s.push(t)) == seq![token_view(s[0])] + tokens_view(sub).push(
            token_view(t),
        ));
        assert(tokens_view(s) == seq![token_view(s[0])] + tokens_view(sub));
        assert(seq![token_view(s[0])] + tokens_view(sub).push(token_view(t)) =~= (seq![
            token_view(s[0]),
        ] + tokens_view(sub)).push(token_view(t)));
    }
}

/// Concatenating token sequences concatenates their models.
pub broadcast proof fn lemma_tokens_view_concat(a: Seq<Token>, b: Seq<Token>)
    ensures
        #[trigger] tokens_view(a + b) == tokens_view(a) + tokens_view(b),
    decreases a.len(),
{
    if a.len() == 0 {
        assert(a + b =~= b);
        assert(a =~= Seq::<Token>::empty());
        assert(tokens_view(a) + tokens_view(b) =~= tokens_view(b));
    } else {
        let sub = a.subrange(1, a.len() as int);
        assert((a + b).subrange(1, (a + b).len() as int) =~= sub + b);
        lemma_tokens_view_concat(sub, b);
        assert((a + b)[0] == a[0]);
        assert(tokens_view(a + b) == seq![token_view(a[0])] + (tokens_view(sub) + tokens_view(b)));
        assert(tokens_view(a) == seq![token_view(a[0])] + tokens_view(sub));
        assert(seq![token_view(a[0])] + (tokens_view(sub) + tokens_view(b)) =~= (seq![
            token_view(a[0]),
        ] + tokens_view(sub)) + tokens_view(b));
    }
}

/// A deep copy of one token, equal to the original in the model.
pub fn copy_token(t: &Token) -> (r: Token)
    ensures
        token_view(r) == token_view(*t),
    decreases *t,
{
    match t {
        Token::Ident(s) => Token::Ident(s.clone()),
        Token::Literal(s) => Token::Literal(s.clone()),
        Token::Punct(c, j) => Token::Punct(*c, *j),
        Token::Group(d, ts) => Token::Group(*d, copy_tokens(ts)),
    }
}

/// A deep copy of a token sequence, equal to the original in the model.
pub fn copy_tokens(ts: &Vec<Token>) -> (r: Vec<Token>)
    ensures
        tokens_view(r@) == tokens_view(ts@),
    decreases ts@,
{
    let mut r: Vec<Token> = Vec::new();
    let mut i: usize = 0;
    while i < ts.len()
        invariant
            i <= ts.len(),
            tokens_view(r@) == tokens_view(ts@.subrange(0, i as int)),
        decreases ts.len() - i,
    {
        let ghost r0 = r@;
        let t = copy_token(&ts[i]);
        r.push(t);
        proof {
            lemma_tokens_view_push(r0, r@[r0.len() as int]);
            lemma_tokens_view_push(ts@.subrange(0, i as int), ts@[i as int]);
            assert(ts@.subrange(0, i as int + 1) =~= ts@.subrange(0, i as int).push(
                ts@[i as int],
            ));
        }
        i += 1;
    }
    proof {
        assert(ts@.subrange(0, i as int) =~= ts@);
    }
    r
}

impl Clone for Token {
    /// A deep copy, equal to the original in the model.
    fn clone(&self) -> (r: Token)
        ensures
            token_view(r) == token_view(*self),
    {
        copy_token(self)
    }
}

/// Appends a deep copy of `src` to `dst`.
pub fn append_tokens(dst: &mut Vec<Token>, src: &Vec<Token>)
    ensures
        tokens_view(final(dst)@) == tokens_view(old(dst)@) + tokens_view(src@),
{
    let mut i: usize = 0;
    while i < src.len()
        invariant
            i <= src.len(),
            tokens_view(dst@) == tokens_view(old(dst)@) + tokens_view(src@.subrange(0, i as int)),
        decreases src.len() - i,
    {
        let ghost d0 = dst@;
        let t = copy_token(&src[i]);
        dst.push(t);
        proof {
            lemma_tokens_view_push(d0, dst@[d0.len() as int]);
            lemma_tokens_view_push(src@.subrange(0, i as int), src@[i as int]);
            assert(src@.subrange(0, i as int + 1) =~= src@.subrange(0, i as int).push(
                src@[i as int],
            ));
            assert(tokens_view(dst@) =~= tokens_view(old(dst)@) + tokens_view(
                src@.subrange(0, i as int + 1),
            ));
        }
        i += 1;
    }
    proof {
        assert(src@.subrange(0, i as int) =~= src@);
    }
}

} // verus!
