//! `#[derive(Element)]`: the impls a struct gets, and the checks on its
//! `render` attributes.
//!
//! ```text
//! #[derive(Element)]
//! #[render(self.view, if self.visible {})]
//! struct TextInput { .. }
//! ```
//!
//! Only a struct derives `Element`. A `render` attribute takes one or two
//! arguments: first the path or field to render, then an `if` condition.
use vstd::prelude::*;

use vstd::string::StringExecFns;

use crate::uix::element::{MetaForm, MetaV, parse_meta, parse_meta_tokens};
use crate::uix::emit::{alone, alone_token, grp, group_token, ident_of, ident_token, joint, push_token, word};
use crate::uix::expand::path_tokens;
use crate::uix::styles::lemma_path_tokens3;
use crate::uix::syntax::{
    UIxError, is_ident_tok, is_number_literal, is_path_segment, path_end, split_args,
    split_arguments, token_is_number_literal, word_is,
};
use crate::uix::token::{
    Delimiter, Spacing, Tok, TokenStream, TokenTree, duplicate_tokens, is_group, path_sep_at,
    punct_at, toks_view,
};

verus! {

/// Where the segments of a path expression start: after a leading `::`.
pub open spec fn path_start(x: Seq<Tok>) -> int {
    if path_sep_at(x, 0) {
        2
    } else {
        0
    }
}

/// Where the path at the front of `x` ends, if `x` starts with one.
pub open spec fn path_expr_end(x: Seq<Tok>) -> Option<int> {
    let st = path_start(x);
    if st < x.len() && is_path_segment(x[st]) {
        path_end(x, st + 1)
    } else {
        None
    }
}

/// `t` may name a field: an identifier or a tuple index.
pub open spec fn is_member(t: Tok) -> bool {
    t is Ident || is_number_literal(t)
}

/// From index `i` on, `x` is a chain of postfix operations on what comes
/// before: field accesses (`.member`), method calls (`.method(..)`), calls
/// (`(..)`), indexing (`[..]`) and `?`; and the last of them is a field
/// access (`last_is_field` for an empty chain).
pub open spec fn field_chain(x: Seq<Tok>, i: int, last_is_field: bool) -> bool
    decreases x.len() - i,
{
    if i == x.len() {
        last_is_field
    } else if 0 <= i && i + 1 < x.len() && punct_at(x, i, '.') && is_member(x[i + 1]) {
        if i + 2 < x.len() && is_group(x[i + 2], Delimiter::Parenthesis) {
            field_chain(x, i + 3, false)
        } else {
            field_chain(x, i + 2, true)
        }
    } else if 0 <= i < x.len() && (is_group(x[i], Delimiter::Parenthesis) || is_group(
        x[i],
        Delimiter::Bracket,
    ) || punct_at(x, i, '?')) {
        field_chain(x, i + 1, false)
    } else {
        false
    }
}

/// The kind of a `render` argument.
#[derive(Copy, Clone, PartialEq, Eq, Structural)]
pub enum RenderArg {
    /// A path, as in `self` or `view::main`.
    Path,
    /// A field access, as in `self.view` or `self.views()[0].main`.
    Field,
    /// An `if` expression, as in `if self.visible {}`.
    Cond,
    /// Anything else.
    Other,
}

/// The kind of the `render` argument `x`.
pub open spec fn render_arg(x: Seq<Tok>) -> RenderArg {
    if path_expr_end(x) == Some(x.len() as int) {
        RenderArg::Path
    } else if path_expr_end(x) matches Some(e) && e < x.len() && field_chain(x, e, false) {
        RenderArg::Field
    } else if x.len() > 1 && (x[0] matches Tok::Ident(w) && w == "if"@) && is_group(
        x[x.len() - 1],
        Delimiter::Brace,
    ) {
        RenderArg::Cond
    } else {
        RenderArg::Other
    }
}

/// Checks the arguments `a` of a `render` attribute, in order, given
/// whether the path or field to render (`has_expr`) and the condition
/// (`has_cond`) were already seen.
pub open spec fn check_render_args(a: Seq<Seq<Tok>>, has_expr: bool, has_cond: bool) -> Result<
    (),
    UIxError,
>
    decreases a.len(),
{
    if a.len() == 0 {
        Ok(())
    } else {
        let k = render_arg(a[0]);
        if (k == RenderArg::Path || k == RenderArg::Field) && !has_expr {
            check_render_args(a.skip(1), true, has_cond)
        } else if k == RenderArg::Cond && has_expr && !has_cond {
            check_render_args(a.skip(1), has_expr, true)
        } else if k == RenderArg::Path {
            Err(UIxError::RenderPathTwice)
        } else {
            Err(UIxError::UnsupportedRenderArgument)
        }
    }
}

/// Checks the argument list `t` of a `render` attribute.
pub open spec fn check_render(t: Seq<Tok>) -> Result<(), UIxError> {
    match split_args(t) {
        None => Err(UIxError::ExpectedExpr),
        Some(a) => if a.len() < 1 || a.len() > 2 {
            Err(UIxError::RenderArguments)
        } else {
            check_render_args(a, false, false)
        },
    }
}

/// Where the outer attributes at the front of `s`, from `i` on, end.
pub open spec fn attrs_end(s: Seq<Tok>, i: int) -> int
    decreases s.len() - i,
{
    if 0 <= i && i + 1 < s.len() && punct_at(s, i, '#') && is_group(s[i + 1], Delimiter::Bracket) {
        attrs_end(s, i + 2)
    } else {
        i
    }
}

/// Where a visibility at index `k` of `s` (`pub`, or `pub(..)`) ends.
pub open spec fn vis_end(s: Seq<Tok>, k: int) -> int {
    if 0 <= k < s.len() && (s[k] matches Tok::Ident(w) && w == "pub"@) {
        if k + 1 < s.len() && is_group(s[k + 1], Delimiter::Parenthesis) {
            k + 2
        } else {
            k + 1
        }
    } else {
        k
    }
}

/// The name of the struct that `s` declares, if it declares one.
pub open spec fn struct_name(s: Seq<Tok>) -> Option<Seq<char>> {
    let v = vis_end(s, attrs_end(s, 0));
    if 0 <= v && v + 1 < s.len() && (s[v] matches Tok::Ident(w) && w == "struct"@) && is_ident_tok(
        s[v + 1],
    ) {
        Some(s[v + 1]->Ident_0)
    } else {
        None
    }
}

/// Checks the `render` attributes among the attributes from index `i` of
/// `s` up to `k`; other attributes are left alone.
pub open spec fn check_attrs(s: Seq<Tok>, i: int, k: int) -> Result<(), UIxError>
    decreases k - i,
{
    if 0 <= i && i + 1 < k && i + 1 < s.len() {
        let r = match parse_meta(s[i + 1]->Group_1) {
            Ok((Some(w), MetaV::List(t))) => if w == "render"@ {
                check_render(t)
            } else {
                Ok(())
            },
            _ => Ok(()),
        };
        match r {
            Err(e) => Err(e),
            Ok(_) => check_attrs(s, i + 2, k),
        }
    } else {
        Ok(())
    }
}

/// What deriving `Element` on the item `s` finds: the struct's name, or
/// why it cannot be derived.
pub open spec fn derive_spec(s: Seq<Tok>) -> Result<Seq<char>, UIxError> {
    match struct_name(s) {
        None => Err(UIxError::NotAStruct),
        Some(n) => match check_attrs(s, 0, attrs_end(s, 0)) {
            Err(e) => Err(e),
            Ok(_) => Ok(n),
        },
    }
}

/// `#[automatically_derived]`
pub open spec fn derived_attr() -> Seq<Tok> {
    seq![alone('#'), grp(Delimiter::Bracket, seq![word("automatically_derived"@)])]
}

/// `fn fmt(&self, f: &mut core::fmt::Formatter<'_>) -> core::fmt::Result`
pub open spec fn fmt_signature() -> Seq<Tok> {
    seq![
        word("fn"@),
        word("fmt"@),
        grp(
            Delimiter::Parenthesis,
            seq![
                alone('&'),
                word("self"@),
                alone(','),
                word("f"@),
                alone(':'),
                alone('&'),
                word("mut"@),
            ] + path_tokens(seq!["core"@, "fmt"@, "Formatter"@]) + seq![
                alone('<'),
                joint('\''),
                word("_"@),
                alone('>'),
            ],
        ),
        joint('-'),
        alone('>'),
    ] + path_tokens(seq!["core"@, "fmt"@, "Result"@])
}

/// `f.write_str("<#root_ident>")`
pub open spec fn fmt_body() -> Seq<Tok> {
    seq![
        word("f"@),
        alone('.'),
        word("write_str"@),
        grp(Delimiter::Parenthesis, seq![Tok::Literal("\"<#root_ident>\""@)]),
    ]
}

/// The impls that deriving `Element` gives the struct `name`: `Display`,
/// which writes `<#root_ident>`, and an empty `slate::element::Element`.
pub open spec fn element_impl_tokens(name: Seq<char>) -> Seq<Tok> {
    derived_attr() + seq![word("impl"@)] + path_tokens(seq!["core"@, "fmt"@, "Display"@]) + seq![
        word("for"@),
        word(name),
        grp(Delimiter::Brace, fmt_signature() + seq![grp(Delimiter::Brace, fmt_body())]),
    ] + derived_attr() + seq![word("impl"@)] + path_tokens(seq!["slate"@, "element"@, "Element"@])
        + seq![word("for"@), word(name), grp(Delimiter::Brace, Seq::empty())]
}

/// Whether `ts` holds, from `i` on, a chain of postfix operations whose
/// last is a field access.
fn field_chain_at(ts: &TokenStream, i: usize, last_is_field: bool) -> (b: bool)
    requires
        i <= ts@.len(),
    ensures
        b == field_chain(ts@, i as int, last_is_field),
    decreases ts@.len() - i,
{
    let n = ts.len();
    if i == n {
        return last_is_field;
    }
    if n - i >= 2 && ts.peek_punct(i, '.') {
        let member = match ts.peek(i + 1) {
            Some(t) => match t {
                TokenTree::Ident(_) => true,
                _ => token_is_number_literal(t),
            },
            None => false,
        };
        if member {
            if n - i > 2 && ts.peek_group(i + 2, Delimiter::Parenthesis) {
                return field_chain_at(ts, i + 3, false);
            } else {
                return field_chain_at(ts, i + 2, true);
            }
        }
    }
    if ts.peek_group(i, Delimiter::Parenthesis) || ts.peek_group(i, Delimiter::Bracket)
        || ts.peek_punct(i, '?') {
        field_chain_at(ts, i + 1, false)
    } else {
        false
    }
}

/// Whether the token at `k` of `ts` is the identifier `w`.
pub(crate) fn word_at(ts: &TokenStream, k: usize, w: &str) -> (b: bool)
    ensures
        b == (k < ts@.len() && (ts@[k as int] matches Tok::Ident(v) && v == w@)),
{
    match ts.peek(k) {
        Some(TokenTree::Ident(v)) => word_is(v, w),
        _ => false,
    }
}

/// The kind of a `render` argument.
fn render_arg_kind(x: &Vec<TokenTree>) -> (k: RenderArg)
    ensures
        k == render_arg(toks_view(x@)),
{
    let ts = TokenStream::new(duplicate_tokens(x));
    let n = ts.len();
    let st: usize = if ts.peek_path_sep(0) { 2 } else { 0 };
    let pe = if st < n && ts.peek_path_segment(st) {
        ts.path_end_at(st + 1)
    } else {
        None
    };
    proof {
        assert(st as int == path_start(ts@));
        assert(pe matches Some(e) ==> path_expr_end(ts@) == Some(e as int));
        assert(pe is None ==> path_expr_end(ts@) is None);
    }
    if pe == Some(n) {
        return RenderArg::Path;
    }
    let field = match pe {
        Some(e) => e < n && field_chain_at(&ts, e, false),
        None => false,
    };
    if field {
        RenderArg::Field
    } else if n > 1 && word_at(&ts, 0, "if") && ts.peek_group(n - 1, Delimiter::Brace) {
        RenderArg::Cond
    } else {
        RenderArg::Other
    }
}

/// Checks the arguments of a `render` attribute.
fn check_render_arguments(t: Vec<TokenTree>) -> (r: Result<(), UIxError>)
    ensures
        r == check_render(toks_view(t@)),
{
    let ghost tv = toks_view(t@);
    let args = match split_arguments(t) {
        None => {
            return Err(UIxError::ExpectedExpr);
        },
        Some(a) => a,
    };
    let ghost av = split_args(tv).unwrap();
    if args.len() < 1 || args.len() > 2 {
        return Err(UIxError::RenderArguments);
    }
    let mut has_expr = false;
    let mut has_cond = false;
    let mut i: usize = 0;
    proof {
        assert(av.skip(0) =~= av);
    }
    while i < args.len()
        invariant
            i <= args@.len(),
            tv == toks_view(t@),
            av.len() == args@.len(),
            forall|j: int| 0 <= j < av.len() ==> #[trigger] av[j] == toks_view(args@[j]@),
            check_render(tv) == check_render_args(av.skip(i as int), has_expr, has_cond),
        decreases args@.len() - i,
    {
        let k = render_arg_kind(&args[i]);
        proof {
            assert(av.skip(i as int)[0] == av[i as int]);
            assert(av.skip(i as int).skip(1) =~= av.skip(i + 1));
        }
        if (k == RenderArg::Path || k == RenderArg::Field) && !has_expr {
            has_expr = true;
        } else if k == RenderArg::Cond && has_expr && !has_cond {
            has_cond = true;
        } else if k == RenderArg::Path {
            return Err(UIxError::RenderPathTwice);
        } else {
            return Err(UIxError::UnsupportedRenderArgument);
        }
        i = i + 1;
    }
    proof {
        assert(av.skip(i as int) =~= Seq::<Seq<Tok>>::empty());
    }
    Ok(())
}

/// `#[automatically_derived]`, appended.
pub(crate) fn derived_attr_to_tokens(out: &mut Vec<TokenTree>)
    ensures
        toks_view(final(out)@) == toks_view(old(out)@) + derived_attr(),
{
    let ghost init = toks_view(out@);
    let mut inner: Vec<TokenTree> = Vec::new();
    proof {
        assert(toks_view(inner@) =~= Seq::<Tok>::empty());
    }
    push_token(&mut inner, ident_token("automatically_derived"));
    proof {
        assert(toks_view(inner@) =~= seq![word("automatically_derived"@)]);
    }
    push_token(out, alone_token('#'));
    push_token(out, group_token(Delimiter::Bracket, inner));
    proof {
        assert(toks_view(out@) =~= init + derived_attr());
    }
}

/// The path `a::b::c`, appended.
fn path3_to_tokens(a: &str, b: &str, c: &str, out: &mut Vec<TokenTree>)
    ensures
        toks_view(final(out)@) == toks_view(old(out)@) + path_tokens(seq![a@, b@, c@]),
{
    let ghost init = toks_view(out@);
    push_token(out, ident_token(a));
    push_token(out, TokenTree::Punct(':', Spacing::Joint));
    push_token(out, alone_token(':'));
    push_token(out, ident_token(b));
    push_token(out, TokenTree::Punct(':', Spacing::Joint));
    push_token(out, alone_token(':'));
    push_token(out, ident_token(c));
    proof {
        lemma_path_tokens3(a@, b@, c@);
        assert(toks_view(out@) =~= init + path_tokens(seq![a@, b@, c@]));
    }
}

/// The impls that deriving `Element` gives the struct `name`.
fn element_impls(name: &String) -> (r: Vec<TokenTree>)
    ensures
        toks_view(r@) == element_impl_tokens(name@),
{
    let mut params: Vec<TokenTree> = Vec::new();
    proof {
        assert(toks_view(params@) =~= Seq::<Tok>::empty());
    }
    push_token(&mut params, alone_token('&'));
    push_token(&mut params, ident_token("self"));
    push_token(&mut params, alone_token(','));
    push_token(&mut params, ident_token("f"));
    push_token(&mut params, alone_token(':'));
    push_token(&mut params, alone_token('&'));
    push_token(&mut params, ident_token("mut"));
    path3_to_tokens("core", "fmt", "Formatter", &mut params);
    push_token(&mut params, alone_token('<'));
    push_token(&mut params, TokenTree::Punct('\'', Spacing::Joint));
    push_token(&mut params, ident_token("_"));
    push_token(&mut params, alone_token('>'));
    let ghost pv = toks_view(params@);
    proof {
        assert(pv =~= seq![
            alone('&'),
            word("self"@),
            alone(','),
            word("f"@),
            alone(':'),
            alone('&'),
            word("mut"@),
        ] + path_tokens(seq!["core"@, "fmt"@, "Formatter"@]) + seq![
            alone('<'),
            joint('\''),
            word("_"@),
            alone('>'),
        ]);
    }
    let mut arg: Vec<TokenTree> = Vec::new();
    proof {
        assert(toks_view(arg@) =~= Seq::<Tok>::empty());
    }
    push_token(&mut arg, TokenTree::Literal(String::from_str("\"<#root_ident>\"")));
    let ghost av = toks_view(arg@);
    let mut body: Vec<TokenTree> = Vec::new();
    proof {
        assert(toks_view(body@) =~= Seq::<Tok>::empty());
    }
    push_token(&mut body, ident_token("f"));
    push_token(&mut body, alone_token('.'));
    push_token(&mut body, ident_token("write_str"));
    push_token(&mut body, group_token(Delimiter::Parenthesis, arg));
    let ghost bv = toks_view(body@);
    proof {
        assert(bv =~= fmt_body());
    }
    let mut fmt: Vec<TokenTree> = Vec::new();
    proof {
        assert(toks_view(fmt@) =~= Seq::<Tok>::empty());
    }
    push_token(&mut fmt, ident_token("fn"));
    push_token(&mut fmt, ident_token("fmt"));
    push_token(&mut fmt, group_token(Delimiter::Parenthesis, params));
    push_token(&mut fmt, TokenTree::Punct('-', Spacing::Joint));
    push_token(&mut fmt, alone_token('>'));
    path3_to_tokens("core", "fmt", "Result", &mut fmt);
    proof {
        assert(toks_view(fmt@) =~= fmt_signature());
    }
    push_token(&mut fmt, group_token(Delimiter::Brace, body));
    let ghost fv = toks_view(fmt@);
    proof {
        assert(fv =~= fmt_signature() + seq![grp(Delimiter::Brace, fmt_body())]);
    }
    let mut out: Vec<TokenTree> = Vec::new();
    proof {
        assert(toks_view(out@) =~= Seq::<Tok>::empty());
    }
    derived_attr_to_tokens(&mut out);
    push_token(&mut out, ident_token("impl"));
    path3_to_tokens("core", "fmt", "Display", &mut out);
    push_token(&mut out, ident_token("for"));
    push_token(&mut out, ident_of(name));
    push_token(&mut out, group_token(Delimiter::Brace, fmt));
    let ghost first = toks_view(out@);
    derived_attr_to_tokens(&mut out);
    push_token(&mut out, ident_token("impl"));
    path3_to_tokens("slate", "element", "Element", &mut out);
    push_token(&mut out, ident_token("for"));
    push_token(&mut out, ident_of(name));
    let empty: Vec<TokenTree> = Vec::new();
    proof {
        assert(toks_view(empty@) =~= Seq::<Tok>::empty());
    }
    push_token(&mut out, group_token(Delimiter::Brace, empty));
    proof {
        assert(toks_view(out@) =~= element_impl_tokens(name@));
    }
    out
}

/// The name of the struct that the item in `ts` declares, once its `render`
/// attributes are checked; or why `Element` cannot be derived for it.
fn scan_derive(ts: &TokenStream) -> (r: Result<String, UIxError>)
    ensures
        match derive_spec(ts@) {
            Ok(name) => r matches Ok(w) && w@ == name,
            Err(e) => r == Err::<String, UIxError>(e),
        },
{
    let ghost s = ts@;
    let n = ts.len();
    let mut k: usize = 0;
    while k < n && n - k >= 2 && ts.peek_punct(k, '#') && ts.peek_group(k + 1, Delimiter::Bracket)
        invariant
            k <= n,
            n == s.len(),
            s == ts@,
            attrs_end(s, 0) == attrs_end(s, k as int),
        decreases n - k,
    {
        k = k + 2;
    }
    let v: usize = if word_at(&ts, k, "pub") {
        if k + 1 < n && ts.peek_group(k + 1, Delimiter::Parenthesis) {
            k + 2
        } else {
            k + 1
        }
    } else {
        k
    };
    proof {
        assert(v as int == vis_end(s, attrs_end(s, 0)));
    }
    if !(v < n && n - v >= 2 && word_at(&ts, v, "struct") && ts.peek_ident(v + 1)) {
        return Err(UIxError::NotAStruct);
    }
    let name = match ts.peek(v + 1) {
        Some(TokenTree::Ident(w)) => w.clone(),
        _ => String::new(),
    };
    let mut i: usize = 0;
    while i < k
        invariant
            k <= n,
            n == s.len(),
            s == ts@,
            k as int == attrs_end(s, 0),
            struct_name(s) == Some(name@),
            i <= k,
            attrs_end(s, i as int) == k as int,
            check_attrs(s, 0, k as int) == check_attrs(s, i as int, k as int),
        decreases k - i,
    {
        assert(punct_at(s, i as int, '#'));
        let inner = match ts.peek(i + 1) {
            Some(TokenTree::Group(_, inner)) => duplicate_tokens(inner),
            _ => Vec::new(),
        };
        let ghost iv = toks_view(inner@);
        proof {
            assert(iv == s[i + 1]->Group_1);
        }
        match parse_meta_tokens(inner) {
            Ok((Some(w), MetaForm::List(t))) => {
                if word_is(&w, "render") {
                    match check_render_arguments(t) {
                        Err(e) => {
                            return Err(e);
                        },
                        Ok(_) => {},
                    }
                }
            },
            _ => {},
        }
        i = i + 2;
    }
    Ok(name)
}

/// Whether `Element` can be derived for the item `input`: `Ok`, or the
/// reason it cannot (the derive panics on such an item).
pub fn check_derive(input: &Vec<TokenTree>) -> (r: Result<(), UIxError>)
    ensures
        match derive_spec(toks_view(input@)) {
            Ok(_) => r is Ok,
            Err(e) => r == Err::<(), UIxError>(e),
        },
{
    let ts = TokenStream::new(duplicate_tokens(input));
    match scan_derive(&ts) {
        Ok(_) => Ok(()),
        Err(e) => Err(e),
    }
}

/// Derives `Element` for the item `input`, a struct whose `render`
/// attributes are well formed: the `Display` and `Element` impls of the
/// struct.
pub fn derive_element(input: Vec<TokenTree>) -> (out: Vec<TokenTree>)
    requires
        derive_spec(toks_view(input@)) is Ok,
    ensures
        toks_view(out@) == element_impl_tokens(derive_spec(toks_view(input@))->Ok_0),
{
    let ts = TokenStream::new(input);
    match scan_derive(&ts) {
        Ok(name) => element_impls(&name),
        Err(_) => Vec::new(),
    }
}

} // verus!
