//! Token trees, the input and the output of the UIx markup, and a stream
//! that hands them out front first.
//!
//! A token tree is what a Rust macro sees: an identifier, a punctuation
//! character, a literal, or a delimited group of further token trees.
use vstd::prelude::*;

verus! {

/// The delimiter of a group of token trees.
#[derive(Copy, Clone, Debug, PartialEq, Eq, Structural)]
pub enum Delimiter {
    /// `( .. )`
    Parenthesis,
    /// `{ .. }`
    Brace,
    /// `[ .. ]`
    Bracket,
    /// An invisible delimiter.
    Invisible,
}

/// Whether a punctuation character is joined to the one that follows it,
/// as the first `:` of `::` is.
#[derive(Copy, Clone, Debug, PartialEq, Eq, Structural)]
pub enum Spacing {
    /// Followed by whitespace or by a token that is not punctuation.
    Alone,
    /// Immediately followed by another punctuation character.
    Joint,
}

/// One token tree.
#[derive(Debug)]
pub enum TokenTree {
    /// A delimited group.
    Group(Delimiter, Vec<TokenTree>),
    /// An identifier or a keyword.
    Ident(String),
    /// One punctuation character.
    Punct(char, Spacing),
    /// A literal, as written in the source (`"text"`, `42u8`, `'c'`, ..).
    Literal(String),
}

/// A token tree as a mathematical value: identifiers and literals by their
/// characters, groups by the values of their token trees.
pub enum Tok {
    Group(Delimiter, Seq<Tok>),
    Ident(Seq<char>),
    Punct(char, Spacing),
    Literal(Seq<char>),
}

impl View for TokenTree {
    type V = Tok;

    open spec fn view(&self) -> Tok
        decreases self,
    {
        match self {
            TokenTree::Group(d, ts) => Tok::Group(*d, toks_view(ts@)),
            TokenTree::Ident(w) => Tok::Ident(w@),
            TokenTree::Punct(c, sp) => Tok::Punct(*c, *sp),
            TokenTree::Literal(w) => Tok::Literal(w@),
        }
    }
}

/// The values of a sequence of token trees.
pub open spec fn toks_view(s: Seq<TokenTree>) -> Seq<Tok>
    decreases s,
{
    if s.len() == 0 {
        Seq::empty()
    } else {
        toks_view(s.drop_last()).push(s.last()@)
    }
}

/// `toks_view` maps each token tree to its value.
pub proof fn lemma_toks_view(s: Seq<TokenTree>)
    ensures
        toks_view(s).len() == s.len(),
        forall|i: int| 0 <= i < s.len() ==> #[trigger] toks_view(s)[i] == s[i]@,
    decreases s.len(),
{
    if s.len() > 0 {
        let init = s.drop_last();
        lemma_toks_view(init);
        assert(toks_view(s) == toks_view(init).push(s.last()@));
        assert forall|i: int| 0 <= i < s.len() implies #[trigger] toks_view(s)[i] == s[i]@ by {
            if i < init.len() {
                assert(init[i] == s[i]);
            }
        }
    } else {
        assert(toks_view(s) == Seq::<Tok>::empty());
    }
}

/// Two sequences whose token trees have the same values have the same value.
pub proof fn lemma_toks_view_ext(a: Seq<TokenTree>, b: Seq<Tok>)
    requires
        a.len() == b.len(),
        forall|i: int| 0 <= i < a.len() ==> #[trigger] a[i]@ == b[i],
    ensures
        toks_view(a) == b,
{
    lemma_toks_view(a);
    assert(toks_view(a) =~= b);
}

/// `t` is the punctuation character `c`, whatever its spacing.
pub open spec fn is_punct(t: Tok, c: char) -> bool {
    t matches Tok::Punct(p, _) && p == c
}

/// `t` is the punctuation character `c` joined to the next one.
pub open spec fn is_joint_punct(t: Tok, c: char) -> bool {
    t matches Tok::Punct(p, sp) && p == c && sp == Spacing::Joint
}

/// `t` is a group with the delimiter `d`.
pub open spec fn is_group(t: Tok, d: Delimiter) -> bool {
    t matches Tok::Group(gd, _) && gd == d
}

/// `s` has the punctuation character `c` at index `k`.
pub open spec fn punct_at(s: Seq<Tok>, k: int, c: char) -> bool {
    0 <= k < s.len() && is_punct(s[k], c)
}

/// `s` has `::` at indices `k` and `k + 1`.
pub open spec fn path_sep_at(s: Seq<Tok>, k: int) -> bool {
    0 <= k && k + 1 < s.len() && is_joint_punct(s[k], ':') && is_punct(s[k + 1], ':')
}

impl TokenTree {
    /// A copy of the token tree, with the same value.
    pub fn duplicate(&self) -> (r: TokenTree)
        ensures
            r@ == self@,
        decreases self,
    {
        match self {
            TokenTree::Group(d, ts) => {
                let mut out: Vec<TokenTree> = Vec::new();
                let mut i: usize = 0;
                while i < ts.len()
                    invariant
                        i <= ts.len(),
                        out@.len() == i,
                        forall|j: int| 0 <= j < i ==> #[trigger] out@[j]@ == ts@[j]@,
                        *self is Group,
                        self->Group_1 == *ts,
                    decreases ts.len() - i,
                {
                    proof {
                        assert(decreases_to!(*ts => ts[i as int])) by {
                            broadcast use vstd::std_specs::vec::axiom_vec_index_decreases;
                        }
                        assert(decreases_to!(*self => self->Group_1));
                        assert(decreases_to!(*self => ts[i as int]));
                    }
                    let t = ts[i].duplicate();
                    out.push(t);
                    i = i + 1;
                }
                proof {
                    lemma_toks_view(ts@);
                    lemma_toks_view_ext(out@, toks_view(ts@));
                }
                TokenTree::Group(*d, out)
            },
            TokenTree::Ident(w) => TokenTree::Ident(w.clone()),
            TokenTree::Punct(c, sp) => TokenTree::Punct(*c, *sp),
            TokenTree::Literal(w) => TokenTree::Literal(w.clone()),
        }
    }
}

/// A copy of a sequence of token trees, with the same value.
pub fn duplicate_tokens(ts: &Vec<TokenTree>) -> (r: Vec<TokenTree>)
    ensures
        toks_view(r@) == toks_view(ts@),
{
    let mut out: Vec<TokenTree> = Vec::new();
    let mut i: usize = 0;
    while i < ts.len()
        invariant
            i <= ts.len(),
            out@.len() == i,
            forall|j: int| 0 <= j < i ==> #[trigger] out@[j]@ == ts@[j]@,
        decreases ts.len() - i,
    {
        let t = ts[i].duplicate();
        out.push(t);
        i = i + 1;
    }
    proof {
        lemma_toks_view(ts@);
        lemma_toks_view_ext(out@, toks_view(ts@));
    }
    out
}

/// Whether `t` is the punctuation character `c`.
pub fn token_is_punct(t: &TokenTree, c: char) -> (r: bool)
    ensures
        r == is_punct(t@, c),
{
    match t {
        TokenTree::Punct(p, _) => *p == c,
        _ => false,
    }
}

/// Whether `t` is the punctuation character `c`, joined to the next one.
pub fn token_is_joint_punct(t: &TokenTree, c: char) -> (r: bool)
    ensures
        r == is_joint_punct(t@, c),
{
    match t {
        TokenTree::Punct(p, sp) => *p == c && matches!(sp, Spacing::Joint),
        _ => false,
    }
}

/// Whether `t` is a group with the delimiter `d`.
pub fn token_is_group(t: &TokenTree, d: Delimiter) -> (r: bool)
    ensures
        r == is_group(t@, d),
{
    match t {
        TokenTree::Group(gd, _) => *gd == d,
        _ => false,
    }
}

/// A stream of token trees that hands them out front first. It holds them
/// in reverse, so that taking the front one is a `pop`.
pub struct TokenStream {
    rev: Vec<TokenTree>,
}

/// The sequence that `rev` holds in reverse.
pub open spec fn reversed(rev: Seq<TokenTree>) -> Seq<TokenTree> {
    Seq::new(rev.len(), |i: int| rev[rev.len() - 1 - i])
}

impl View for TokenStream {
    type V = Seq<Tok>;

    /// The values of the token trees still in the stream, front first.
    closed spec fn view(&self) -> Seq<Tok> {
        toks_view(reversed(self.rev@))
    }
}

impl TokenStream {
    proof fn lemma_view(&self)
        ensures
            self@.len() == self.rev@.len(),
            forall|i: int|
                0 <= i < self@.len() ==> #[trigger] self@[i] == self.rev@[self.rev@.len() - 1 - i]@,
    {
        lemma_toks_view(reversed(self.rev@));
    }

    /// A stream of the given token trees, in their order.
    pub fn new(tokens: Vec<TokenTree>) -> (r: Self)
        ensures
            r@ == toks_view(tokens@),
    {
        let mut tokens = tokens;
        let ghost all = tokens@;
        let mut rev: Vec<TokenTree> = Vec::new();
        while tokens.len() > 0
            invariant
                tokens@.len() + rev@.len() == all.len(),
                tokens@ == all.subrange(0, tokens@.len() as int),
                forall|i: int|
                    0 <= i < rev@.len() ==> #[trigger] rev@[i] == all[all.len() - 1 - i],
            decreases tokens.len(),
        {
            let t = tokens.pop().unwrap();
            rev.push(t);
        }
        let r = TokenStream { rev };
        assert(reversed(r.rev@) =~= all);
        r
    }

    /// How many token trees are left.
    pub fn len(&self) -> (n: usize)
        ensures
            n == self@.len(),
    {
        proof {
            self.lemma_view();
        }
        self.rev.len()
    }

    /// Whether the stream is empty.
    pub fn is_empty(&self) -> (b: bool)
        ensures
            b == (self@.len() == 0),
    {
        proof {
            self.lemma_view();
        }
        self.rev.len() == 0
    }

    /// The token tree `k` places from the front, if there is one.
    pub fn peek(&self, k: usize) -> (r: Option<&TokenTree>)
        ensures
            k < self@.len() ==> r is Some && r->0@ == self@[k as int],
            k >= self@.len() ==> r is None,
    {
        proof {
            self.lemma_view();
        }
        let n = self.rev.len();
        if k < n {
            Some(&self.rev[n - 1 - k])
        } else {
            None
        }
    }

    /// Whether the token tree `k` places from the front is the punctuation
    /// character `c`.
    pub fn peek_punct(&self, k: usize, c: char) -> (b: bool)
        ensures
            b == punct_at(self@, k as int, c),
    {
        match self.peek(k) {
            Some(t) => token_is_punct(t, c),
            None => false,
        }
    }

    /// Whether the token tree `k` places from the front is a group with the
    /// delimiter `d`.
    pub fn peek_group(&self, k: usize, d: Delimiter) -> (b: bool)
        ensures
            b == (k < self@.len() && is_group(self@[k as int], d)),
    {
        match self.peek(k) {
            Some(t) => token_is_group(t, d),
            None => false,
        }
    }

    /// Whether `::` starts `k` places from the front.
    pub fn peek_path_sep(&self, k: usize) -> (b: bool)
        requires
            k < usize::MAX,
        ensures
            b == path_sep_at(self@, k as int),
    {
        match self.peek(k) {
            Some(t) => token_is_joint_punct(t, ':') && self.peek_punct(k + 1, ':'),
            None => false,
        }
    }

    /// Takes the front token tree.
    pub fn next(&mut self) -> (t: TokenTree)
        requires
            old(self)@.len() > 0,
        ensures
            t@ == old(self)@[0],
            final(self)@ == old(self)@.skip(1),
    {
        proof {
            self.lemma_view();
        }
        let t = self.rev.pop().unwrap();
        proof {
            self.lemma_view();
            assert(self@ =~= old(self)@.skip(1));
        }
        t
    }

    /// Takes the `n` front token trees, in their order.
    pub fn take(&mut self, n: usize) -> (r: Vec<TokenTree>)
        requires
            n <= old(self)@.len(),
        ensures
            toks_view(r@) == old(self)@.take(n as int),
            final(self)@ == old(self)@.skip(n as int),
    {
        let mut r: Vec<TokenTree> = Vec::new();
        let mut i: usize = 0;
        proof {
            assert(self@ =~= old(self)@.skip(0));
            lemma_toks_view(r@);
            assert(toks_view(r@) =~= old(self)@.take(0));
        }
        while i < n
            invariant
                i <= n,
                n <= old(self)@.len(),
                toks_view(r@) == old(self)@.take(i as int),
                self@ == old(self)@.skip(i as int),
            decreases n - i,
        {
            let ghost before = r@;
            let t = self.next();
            r.push(t);
            i = i + 1;
            proof {
                lemma_toks_view(before);
                lemma_toks_view(r@);
                assert(toks_view(r@) =~= old(self)@.take(i as int));
                assert(self@ =~= old(self)@.skip(i as int));
            }
        }
        r
    }
}

} // verus!
