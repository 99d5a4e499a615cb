//! The lexical pieces of the UIx markup: identifiers, prop values, paths
//! and comma-separated argument lists.
//!
//! An identifier is an identifier token that is not a Rust keyword. A prop
//! value is a literal (a negative number included), a delimited group, or
//! a path of identifiers joined by `::`. An argument list is split at its
//! commas; each argument is the run of token trees up to the next comma.
use vstd::prelude::*;

use vstd::string::StringExecFns;

use crate::uix::token::{
    Delimiter, Tok, TokenStream, TokenTree, is_group, is_punct, path_sep_at, punct_at,
    token_is_punct, toks_view,
};

verus! {

/// Why a UIx block could not be parsed.
#[derive(Copy, Clone, Debug, PartialEq, Eq, Structural)]
pub enum UIxError {
    /// An identifier (not a keyword) was expected.
    ExpectedIdent,
    /// The given punctuation character was expected.
    ExpectedPunct(char),
    /// A group with the given delimiter was expected.
    ExpectedGroup(Delimiter),
    /// A prop value was expected after `=`.
    ExpectedPropValue,
    /// An expression was expected in an argument list.
    ExpectedExpr,
    /// A path segment was expected after `::`.
    ExpectedPathSegment,
    /// Tokens were left over inside an attribute.
    UnexpectedToken,
    /// The attribute's name is none of those the markup knows.
    UnknownAttribute,
    /// The attribute's path is not a single identifier.
    AttributeIdent,
    /// The attribute needs a list of arguments.
    ExpectedList,
    /// An `on` or `style` attribute has no first argument.
    ExpectedEventName,
    /// A closing tag names another element than the one it closes.
    ClosingTagMismatch,
    /// `Element` is derived for something other than a struct.
    NotAStruct,
    /// A `render` attribute has no argument or more than two.
    RenderArguments,
    /// A `render` attribute names a second path.
    RenderPathTwice,
    /// A `render` argument is neither the path or field to render first nor
    /// an `if` condition after it.
    UnsupportedRenderArgument,
    /// A derive was given something other than a struct, an enum or a union.
    ExpectedItem,
}

/// The words that Rust reserves, which are not identifiers.
pub open spec fn is_keyword(w: Seq<char>) -> bool {
    ||| w == "_"@ ||| w == "abstract"@ ||| w == "as"@ ||| w == "async"@
    ||| w == "await"@ ||| w == "become"@ ||| w == "box"@ ||| w == "break"@
    ||| w == "const"@ ||| w == "continue"@ ||| w == "crate"@ ||| w == "do"@
    ||| w == "dyn"@ ||| w == "else"@ ||| w == "enum"@ ||| w == "extern"@
    ||| w == "false"@ ||| w == "final"@ ||| w == "fn"@ ||| w == "for"@
    ||| w == "if"@ ||| w == "impl"@ ||| w == "in"@ ||| w == "let"@
    ||| w == "loop"@ ||| w == "macro"@ ||| w == "match"@ ||| w == "mod"@
    ||| w == "move"@ ||| w == "mut"@ ||| w == "override"@ ||| w == "priv"@
    ||| w == "pub"@ ||| w == "ref"@ ||| w == "return"@ ||| w == "Self"@
    ||| w == "self"@ ||| w == "static"@ ||| w == "struct"@ ||| w == "super"@
    ||| w == "trait"@ ||| w == "true"@ ||| w == "try"@ ||| w == "type"@
    ||| w == "typeof"@ ||| w == "unsafe"@ ||| w == "unsized"@ ||| w == "use"@
    ||| w == "virtual"@ ||| w == "where"@ ||| w == "while"@ ||| w == "yield"@
}

/// `t` is an identifier that is not a keyword.
pub open spec fn is_ident_tok(t: Tok) -> bool {
    t matches Tok::Ident(w) && !is_keyword(w)
}

/// The keywords that may stand as a segment of an expression path.
pub open spec fn is_path_keyword(w: Seq<char>) -> bool {
    w == "super"@ || w == "self"@ || w == "crate"@ || w == "try"@ || w == "Self"@
}

/// `t` may stand as a segment of an expression path.
pub open spec fn is_path_segment(t: Tok) -> bool {
    t matches Tok::Ident(w) && (!is_keyword(w) || is_path_keyword(w))
}

/// `t` is a number literal (its text starts with a digit).
pub open spec fn is_number_literal(t: Tok) -> bool {
    t matches Tok::Literal(w) && w.len() > 0 && '0' <= w[0] && w[0] <= '9'
}

/// Where a path ends, given that a segment of it ends at index `i` of `s`:
/// `::` and a segment continue it, unless `::` is followed by a
/// parenthesized group. A generic argument list (`::<`) is refused, and so
/// is `::` followed by anything but a segment.
pub open spec fn path_end(s: Seq<Tok>, i: int) -> Option<int>
    decreases s.len() - i,
{
    if path_sep_at(s, i) && punct_at(s, i + 2, '<') {
        None
    } else if path_sep_at(s, i) && !(i + 2 < s.len() && is_group(s[i + 2], Delimiter::Parenthesis)) {
        if i + 2 < s.len() && is_path_segment(s[i + 2]) {
            path_end(s, i + 3)
        } else {
            None
        }
    } else {
        Some(i)
    }
}

/// How many token trees at the front of `s` make up a prop value, if they
/// make one.
pub open spec fn value_len(s: Seq<Tok>) -> Option<int> {
    if s.len() == 0 {
        None
    } else if s[0] is Literal {
        Some(1)
    } else if (s[0] matches Tok::Ident(w) && (w == "true"@ || w == "false"@)) {
        Some(1)
    } else if is_punct(s[0], '-') && s.len() > 1 && is_number_literal(s[1]) {
        Some(2)
    } else if is_group(s[0], Delimiter::Brace) || is_group(s[0], Delimiter::Bracket)
        || is_group(s[0], Delimiter::Parenthesis) {
        Some(1)
    } else {
        let start: int = if path_sep_at(s, 0) { 2 } else { 0 };
        if start < s.len() && is_path_segment(s[start]) {
            path_end(s, start + 1)
        } else {
            None
        }
    }
}

/// A path ends after the segment it was given, and within `s`.
pub proof fn lemma_path_end_bounds(s: Seq<Tok>, i: int)
    requires
        0 < i <= s.len(),
    ensures
        path_end(s, i) matches Some(e) ==> i <= e <= s.len(),
    decreases s.len() - i,
{
    if path_sep_at(s, i) && !punct_at(s, i + 2, '<') && !(i + 2 < s.len() && is_group(
        s[i + 2],
        Delimiter::Parenthesis,
    )) && i + 2 < s.len() && is_path_segment(s[i + 2]) {
        lemma_path_end_bounds(s, i + 3);
    }
}

/// A prop value takes at least one token tree and no more than there are.
pub proof fn lemma_value_len_bounds(s: Seq<Tok>)
    ensures
        value_len(s) matches Some(n) ==> 1 <= n <= s.len(),
{
    let start: int = if path_sep_at(s, 0) { 2 } else { 0 };
    if start < s.len() {
        lemma_path_end_bounds(s, start + 1);
    }
}

/// The index of the first comma at or after index `k` of `s` that separates
/// arguments, or the length of `s` if there is none. The argument being
/// scanned starts at `start`. A comma inside the generic arguments of a
/// turbofish (`::<A, B>`, with `depth` angle brackets open) or inside the
/// parameters of a closure (`|a, b|` or `move |a, b|`, while `params`)
/// separates nothing.
pub open spec fn comma_scan(s: Seq<Tok>, k: int, start: int, depth: nat, params: bool) -> int
    decreases s.len() - k,
{
    if k < 0 || k >= s.len() {
        s.len() as int
    } else if depth > 0 {
        if is_punct(s[k], '<') {
            comma_scan(s, k + 1, start, depth + 1, params)
        } else if is_punct(s[k], '>') {
            comma_scan(s, k + 1, start, (depth - 1) as nat, params)
        } else {
            comma_scan(s, k + 1, start, depth, params)
        }
    } else if params {
        comma_scan(s, k + 1, start, 0, !is_punct(s[k], '|'))
    } else if is_punct(s[k], ',') {
        k
    } else if path_sep_at(s, k) && punct_at(s, k + 2, '<') {
        comma_scan(s, k + 3, start, 1, false)
    } else if is_punct(s[k], '|') && (k == start || (k == start + 1 && (s[start] matches Tok::Ident(
        w,
    ) && w == "move"@))) {
        comma_scan(s, k + 1, start, 0, true)
    } else {
        comma_scan(s, k + 1, start, 0, false)
    }
}

/// The index of the first comma at or after index `k` of `s` that separates
/// arguments (an argument starting at `k`), or the length of `s`.
pub open spec fn comma_from(s: Seq<Tok>, k: int) -> int {
    comma_scan(s, k, k, 0, false)
}

/// A scan ends at a separating comma or at the end.
pub proof fn lemma_comma_scan(s: Seq<Tok>, k: int, start: int, depth: nat, params: bool)
    requires
        0 <= k,
    ensures
        k <= comma_scan(s, k, start, depth, params) || comma_scan(s, k, start, depth, params)
            == s.len(),
        comma_scan(s, k, start, depth, params) <= s.len(),
        comma_scan(s, k, start, depth, params) < s.len() ==> is_punct(
            s[comma_scan(s, k, start, depth, params)],
            ',',
        ),
    decreases s.len() - k,
{
    if k < s.len() {
        if depth > 0 {
            if is_punct(s[k], '<') {
                lemma_comma_scan(s, k + 1, start, depth + 1, params);
            } else if is_punct(s[k], '>') {
                lemma_comma_scan(s, k + 1, start, (depth - 1) as nat, params);
            } else {
                lemma_comma_scan(s, k + 1, start, depth, params);
            }
        } else if params {
            lemma_comma_scan(s, k + 1, start, 0, !is_punct(s[k], '|'));
        } else if is_punct(s[k], ',') {
        } else if path_sep_at(s, k) && punct_at(s, k + 2, '<') {
            lemma_comma_scan(s, k + 3, start, 1, false);
        } else if is_punct(s[k], '|') && (k == start || (k == start + 1 && (s[start] matches Tok::Ident(
            w,
        ) && w == "move"@))) {
            lemma_comma_scan(s, k + 1, start, 0, true);
        } else {
            lemma_comma_scan(s, k + 1, start, 0, false);
        }
    }
}

/// Over token trees with no comma, `|` or `<`, a scan finds the first
/// comma: it ends at `m`, which is a comma or the end.
pub proof fn lemma_comma_scan_plain(s: Seq<Tok>, k: int, start: int, m: int)
    requires
        0 <= k <= m <= s.len(),
        forall|j: int|
            k <= j < m ==> !is_punct(#[trigger] s[j], ',') && !is_punct(s[j], '|') && !is_punct(
                s[j],
                '<',
            ),
        m == s.len() || is_punct(s[m], ','),
    ensures
        comma_scan(s, k, start, 0, false) == m,
    decreases m - k,
{
    if k < m {
        if path_sep_at(s, k) && punct_at(s, k + 2, '<') {
            assert(k + 2 >= m);
            assert(false);
        }
        lemma_comma_scan_plain(s, k + 1, start, m);
    }
}

/// A comma-separated list of arguments: the runs of token trees between the
/// commas. A comma may end the list; an empty run before a comma is refused.
pub open spec fn split_args(s: Seq<Tok>) -> Option<Seq<Seq<Tok>>>
    decreases s.len(),
{
    if s.len() == 0 {
        Some(Seq::empty())
    } else {
        let n = comma_from(s, 0);
        if n <= 0 {
            None
        } else if n >= s.len() {
            Some(seq![s])
        } else {
            match split_args(s.skip(n + 1)) {
                Some(rest) => Some(seq![s.take(n)] + rest),
                None => None,
            }
        }
    }
}

/// Whether `w` reads `lit`.
pub fn word_is(w: &String, lit: &str) -> (b: bool)
    ensures
        b == (w@ == lit@),
{
    let l = String::from_str(lit);
    *w == l
}

/// Whether `w` is a keyword.
pub fn word_is_keyword(w: &String) -> (b: bool)
    ensures
        b == is_keyword(w@),
{
    word_is(w, "_") || word_is(w, "abstract") || word_is(w, "as") || word_is(w, "async")
        || word_is(w, "await") || word_is(w, "become") || word_is(w, "box") || word_is(w, "break")
        || word_is(w, "const") || word_is(w, "continue") || word_is(w, "crate") || word_is(w, "do")
        || word_is(w, "dyn") || word_is(w, "else") || word_is(w, "enum") || word_is(w, "extern")
        || word_is(w, "false") || word_is(w, "final") || word_is(w, "fn") || word_is(w, "for")
        || word_is(w, "if") || word_is(w, "impl") || word_is(w, "in") || word_is(w, "let")
        || word_is(w, "loop") || word_is(w, "macro") || word_is(w, "match") || word_is(w, "mod")
        || word_is(w, "move") || word_is(w, "mut") || word_is(w, "override") || word_is(w, "priv")
        || word_is(w, "pub") || word_is(w, "ref") || word_is(w, "return") || word_is(w, "Self")
        || word_is(w, "self") || word_is(w, "static") || word_is(w, "struct") || word_is(w, "super")
        || word_is(w, "trait") || word_is(w, "true") || word_is(w, "try") || word_is(w, "type")
        || word_is(w, "typeof") || word_is(w, "unsafe") || word_is(w, "unsized") || word_is(w, "use")
        || word_is(w, "virtual") || word_is(w, "where") || word_is(w, "while") || word_is(w, "yield")
}

/// Whether `t` is an identifier that is not a keyword.
pub fn token_is_ident(t: &TokenTree) -> (b: bool)
    ensures
        b == is_ident_tok(t@),
{
    match t {
        TokenTree::Ident(w) => !word_is_keyword(w),
        _ => false,
    }
}

/// Whether `t` may stand as a segment of an expression path.
pub fn token_is_path_segment(t: &TokenTree) -> (b: bool)
    ensures
        b == is_path_segment(t@),
{
    match t {
        TokenTree::Ident(w) => !word_is_keyword(w) || word_is(w, "super") || word_is(w, "self")
            || word_is(w, "crate") || word_is(w, "try") || word_is(w, "Self"),
        _ => false,
    }
}

/// Whether `t` is a number literal.
pub fn token_is_number_literal(t: &TokenTree) -> (b: bool)
    ensures
        b == is_number_literal(t@),
{
    match t {
        TokenTree::Literal(w) => {
            let text = w.as_str();
            if text.unicode_len() == 0 {
                false
            } else {
                let c = text.get_char(0);
                '0' <= c && c <= '9'
            }
        },
        _ => false,
    }
}

/// Whether `t` is the literal `true` or `false`.
pub fn token_is_bool(t: &TokenTree) -> (b: bool)
    ensures
        b == (t@ matches Tok::Ident(w) && (w == "true"@ || w == "false"@)),
{
    match t {
        TokenTree::Ident(w) => word_is(w, "true") || word_is(w, "false"),
        _ => false,
    }
}

impl TokenStream {
    /// Whether the token tree `k` places from the front is an identifier.
    pub fn peek_ident(&self, k: usize) -> (b: bool)
        ensures
            b == (k < self@.len() && is_ident_tok(self@[k as int])),
    {
        match self.peek(k) {
            Some(t) => token_is_ident(t),
            None => false,
        }
    }

    /// Whether the token tree `k` places from the front may stand as a
    /// segment of an expression path.
    pub fn peek_path_segment(&self, k: usize) -> (b: bool)
        ensures
            b == (k < self@.len() && is_path_segment(self@[k as int])),
    {
        match self.peek(k) {
            Some(t) => token_is_path_segment(t),
            None => false,
        }
    }

    /// Where the path whose segments end `i` places from the front ends.
    pub fn path_end_at(&self, i: usize) -> (r: Option<usize>)
        requires
            0 < i <= self@.len(),
        ensures
            r matches Some(e) ==> path_end(self@, i as int) == Some(e as int),
            r is None ==> path_end(self@, i as int) is None,
        decreases self@.len() - i,
    {
        let n = self.len();
        if i < n - 1 && self.peek_path_sep(i) && self.peek_punct(i + 2, '<') {
            None
        } else if i < n - 1 && self.peek_path_sep(i) && !(i + 2 < n && self.peek_group(
            i + 2,
            Delimiter::Parenthesis,
        )) {
            if i + 2 < n && self.peek_path_segment(i + 2) {
                self.path_end_at(i + 3)
            } else {
                None
            }
        } else {
            Some(i)
        }
    }

    /// How many token trees at the front make up a prop value, if they make
    /// one.
    pub fn value_len_at_front(&self) -> (r: Option<usize>)
        ensures
            r matches Some(n) ==> value_len(self@) == Some(n as int),
            r is None ==> value_len(self@) is None,
    {
        let n = self.len();
        if n == 0 {
            return None;
        }
        let first = self.peek(0).unwrap();
        let is_literal = match first {
            TokenTree::Literal(_) => true,
            _ => false,
};
        if is_literal {
            Some(1)
        } else if token_is_bool(first) {
            Some(1)
        } else if token_is_punct(first, '-') && n > 1 && token_is_number_literal(
            self.peek(1).unwrap(),
        ) {
            Some(2)
        } else if self.peek_group(0, Delimiter::Brace) || self.peek_group(0, Delimiter::Bracket)
            || self.peek_group(0, Delimiter::Parenthesis) {
            Some(1)
        } else {
            let start: usize = if self.peek_path_sep(0) { 2 } else { 0 };
            if start < n && self.peek_path_segment(start) {
                self.path_end_at(start + 1)
            } else {
                None
            }
        }
    }
}

impl TokenStream {
    /// Where the argument at the front ends: the index of the first comma
    /// that separates arguments, or the length.
    pub fn comma_at_front(&self) -> (k: usize)
        ensures
            k == comma_from(self@, 0),
    {
        let ghost s = self@;
        let n = self.len();
        let mut k: usize = 0;
        let mut depth: usize = 0;
        let mut params = false;
        while k < n
            invariant
                k <= n,
                n == s.len(),
                s == self@,
                depth <= k,
                comma_from(s, 0) == comma_scan(s, k as int, 0, depth as nat, params),
            decreases n - k,
        {
            if depth > 0 {
                if self.peek_punct(k, '<') {
                    depth = depth + 1;
                } else if self.peek_punct(k, '>') {
                    depth = depth - 1;
                }
                k = k + 1;
            } else if params {
                params = !self.peek_punct(k, '|');
                k = k + 1;
            } else if self.peek_punct(k, ',') {
                return k;
            } else if n - k > 2 && self.peek_path_sep(k) && self.peek_punct(k + 2, '<') {
                depth = 1;
                k = k + 3;
            } else if self.peek_punct(k, '|') && (k == 0 || (k == 1 && match self.peek(0) {
                Some(TokenTree::Ident(w)) => word_is(w, "move"),
                _ => false,
            })) {
                params = true;
                k = k + 1;
            } else {
                k = k + 1;
            }
        }
        k
    }
}

/// Splits a list of token trees at its commas into arguments.
pub fn split_arguments(tokens: Vec<TokenTree>) -> (r: Option<Vec<Vec<TokenTree>>>)
    ensures
        match split_args(toks_view(tokens@)) {
            Some(args) => r matches Some(v) && v@.len() == args.len() && forall|i: int|
                0 <= i < args.len() ==> #[trigger] toks_view(v@[i]@) == args[i],
            None => r is None,
        },
{
    let mut ts = TokenStream::new(tokens);
    let mut out: Vec<Vec<TokenTree>> = Vec::new();
    let ghost whole = ts@;
    let ghost done: Seq<Seq<Tok>> = Seq::empty();
    proof {
        assert(whole.skip(0) =~= whole);
    }
    while !ts.is_empty()
        invariant
            whole == toks_view(tokens@),
            split_args(whole) == match split_args(ts@) {
                Some(rest) => Some(done + rest),
                None => None::<Seq<Seq<Tok>>>,
            },
            out@.len() == done.len(),
            forall|i: int| 0 <= i < done.len() ==> #[trigger] toks_view(out@[i]@) == done[i],
        decreases ts@.len(),
    {
        let ghost s = ts@;
        let n = ts.len();
        let k = ts.comma_at_front();
        proof {
            lemma_comma_scan(s, 0, 0, 0, false);
        }
        if k == 0 {
            proof {
                assert(split_args(s) is None);
            }
            return None;
        }
        let arg = ts.take(k);
        out.push(arg);
        proof {
            done = done.push(s.take(k as int));
        }
        if k < n {
            let _comma = ts.next();
            proof {
                assert(ts@ =~= s.skip(k + 1));
                match split_args(ts@) {
                    Some(rest) => {
                        assert(done.drop_last() + (seq![s.take(k as int)] + rest) =~= done + rest);
                    },
                    None => {},
                }
            }
        } else {
            proof {
                assert(s.take(k as int) =~= s);
                assert(ts@ =~= Seq::<Tok>::empty());
                assert(done.drop_last() + seq![s] =~= done + Seq::<Seq<Tok>>::empty());
            }
        }
    }
    proof {
        assert(done + Seq::<Seq<Tok>>::empty() =~= done);
    }
    Some(out)
}

} // verus!
