//! The attributes and props of a UIx element.
//!
//! ```text
//! #[on(Click, click_handler_fn)]
//! #[style(BackgroundColor, hexa("#FF0000", 0.5))]
//! #[class(my_class)]
//! <ElementTestImpl name="Second Root" number=0usize>
//! ```
//!
//! An attribute is `#` and a bracketed meta: a path, optionally followed by
//! a delimited argument list or by `=` and a value, or, for an event, the
//! path `on`, `:`, the event's name and its handlers in parentheses
//! (`#[on:load(load_callback)]`). The markup knows the attributes `on` (an
//! event kind and its handlers), `class` (style builder functions), `style`
//! (an inline style: class names and `key=value` pairs) and, without using
//! them, `uuid`, `when`, `each` and `doc`.
use vstd::prelude::*;

use crate::uix::syntax::{
    UIxError, is_ident_tok, is_keyword, lemma_value_len_bounds, split_args, split_arguments,
    value_len, word_is, word_is_keyword,
};
use crate::uix::token::{
    Delimiter, Tok, TokenStream, TokenTree, duplicate_tokens, is_group, is_joint_punct,
    path_sep_at, punct_at, toks_view,
};

verus! {

/// The values of a sequence of expressions, each written as token trees.
pub open spec fn exprs_view(v: Seq<Vec<TokenTree>>) -> Seq<Seq<Tok>> {
    v.map_values(|e: Vec<TokenTree>| toks_view(e@))
}

/// The value of a prop: its key, and the token trees of its value if it
/// has one.
pub struct PropV {
    pub key: Seq<char>,
    pub value: Option<Seq<Tok>>,
}

/// The value of an event attribute: the event kind and its handlers.
pub struct EventV {
    pub kind: Seq<Tok>,
    pub handlers: Seq<Seq<Tok>>,
}

/// The expression of a prop value, as in `name="Second Root"`.
pub struct ElementPropValue(pub Vec<TokenTree>);

/// A key/value pair, as in `key="value"`, or a key alone.
pub struct ElementProp {
    pub key: String,
    pub value: Option<ElementPropValue>,
}

impl ElementProp {
    pub open spec fn view_prop(&self) -> PropV {
        PropV {
            key: self.key@,
            value: match self.value {
                Some(v) => Some(toks_view(v.0@)),
                None => None,
            },
        }
    }
}

/// An event attribute, as in `#[on(Click, click_handler_fn)]` or
/// `#[on:load(load_callback)]`: the event
/// kind, and one or more handlers.
pub struct ElementEventAttribute(Vec<TokenTree>, Vec<Vec<TokenTree>>);

impl ElementEventAttribute {
    pub closed spec fn view_event(&self) -> EventV {
        EventV { kind: toks_view(self.0@), handlers: exprs_view(self.1@) }
    }

    /// The event kind.
    pub fn kind(&self) -> (r: &Vec<TokenTree>)
        ensures
            toks_view(r@) == self.view_event().kind,
    {
        &self.0
    }

    /// The event handlers.
    pub fn handlers(&self) -> (r: &Vec<Vec<TokenTree>>)
        ensures
            exprs_view(r@) == self.view_event().handlers,
    {
        &self.1
    }
}

/// A style attribute, as in `#[style(BackgroundColor, hexa("#FF0000", 1.0))]`
/// or `#[style(class01, class02, render=self.debug_mode)]`: its whole
/// argument list, every expression of it in order with the commas between.
pub struct ElementStyleAttribute(Vec<TokenTree>);

impl ElementStyleAttribute {
    pub closed spec fn view_style(&self) -> Seq<Tok> {
        toks_view(self.0@)
    }

    /// The style's argument list.
    pub fn expr(&self) -> (r: &Vec<TokenTree>)
        ensures
            toks_view(r@) == self.view_style(),
    {
        &self.0
    }
}

/// A class attribute, as in `#[class(style_builder_fn)]`: the style builder
/// functions.
pub struct ElementClassAttribute(Vec<Vec<TokenTree>>);

impl ElementClassAttribute {
    pub closed spec fn view_class(&self) -> Seq<Seq<Tok>> {
        exprs_view(self.0@)
    }

    /// The style builder functions.
    pub fn classes(&self) -> (r: &Vec<Vec<TokenTree>>)
        ensures
            exprs_view(r@) == self.view_class(),
    {
        &self.0
    }
}

/// A prop at the front of `s`: an identifier, then optionally `=` and a
/// value.
pub open spec fn parse_prop(s: Seq<Tok>) -> Result<(PropV, Seq<Tok>), UIxError> {
    if s.len() > 0 && is_ident_tok(s[0]) {
        let key = s[0]->Ident_0;
        if punct_at(s, 1, '=') {
            match value_len(s.skip(2)) {
                Some(n) => Ok((PropV { key, value: Some(s.skip(2).take(n)) }, s.skip(2 + n))),
                None => Err(UIxError::ExpectedPropValue),
            }
        } else {
            Ok((PropV { key, value: None }, s.skip(1)))
        }
    } else {
        Err(UIxError::ExpectedIdent)
    }
}

/// A parsed prop leaves fewer token trees than it found.
pub proof fn lemma_parse_prop_shrinks(s: Seq<Tok>)
    ensures
        parse_prop(s) matches Ok((_, rest)) ==> rest.len() < s.len(),
{
    lemma_value_len_bounds(s.skip(2));
}

/// Takes the identifier at the front of the stream.
pub fn take_ident(ts: &mut TokenStream) -> (r: String)
    requires
        old(ts)@.len() > 0,
        old(ts)@[0] is Ident,
    ensures
        r@ == old(ts)@[0]->Ident_0,
        final(ts)@ == old(ts)@.skip(1),
{
    match ts.next() {
        TokenTree::Ident(w) => w,
        _ => String::new(),
    }
}

/// Parses a prop at the front of the stream.
pub fn parse_element_prop(ts: &mut TokenStream) -> (r: Result<ElementProp, UIxError>)
    ensures
        match parse_prop(old(ts)@) {
            Ok((p, rest)) => r matches Ok(q) && q.view_prop() == p && final(ts)@ == rest,
            Err(e) => r == Err::<ElementProp, UIxError>(e),
        },
{
    if !ts.peek_ident(0) {
        return Err(UIxError::ExpectedIdent);
    }
    let key = take_ident(ts);
    if ts.peek_punct(0, '=') {
        let _eq = ts.next();
        match ts.value_len_at_front() {
            Some(n) => {
                proof {
                    lemma_value_len_bounds(ts@);
                    assert(ts@ =~= old(ts)@.skip(2));
                    assert(ts@.skip(n as int) =~= old(ts)@.skip(2 + n));
                }
                let value = ts.take(n);
                Ok(ElementProp { key, value: Some(ElementPropValue(value)) })
            },
            None => {
                proof {
                    assert(ts@ =~= old(ts)@.skip(2));
                }
                Err(UIxError::ExpectedPropValue)
            },
        }
    } else {
        Ok(ElementProp { key, value: None })
    }
}

/// The form of an attribute's meta after its path.
pub enum MetaV {
    /// The path alone.
    Path,
    /// The path and a delimited list of token trees.
    List(Seq<Tok>),
    /// The path, `=` and a value.
    NameValue,
    /// The path, `:`, a name and a parenthesized list of token trees.
    Named(Seq<char>, Seq<Tok>),
}

/// `t` may stand as a segment of an attribute's path.
pub open spec fn is_meta_segment(t: Tok) -> bool {
    t matches Tok::Ident(w) && (!is_keyword(w) || w == "super"@ || w == "self"@ || w == "Self"@
        || w == "crate"@)
}

/// Where an attribute's path ends, given that a segment is expected at
/// index `i` of `c` (`first` if it would be the first segment).
pub open spec fn meta_path_end(c: Seq<Tok>, i: int, first: bool) -> Result<int, UIxError>
    decreases c.len() - i,
{
    if 0 <= i < c.len() && is_meta_segment(c[i]) {
        if path_sep_at(c, i + 1) {
            meta_path_end(c, i + 3, false)
        } else {
            Ok(i + 1)
        }
    } else if first {
        Err(UIxError::ExpectedIdent)
    } else {
        Err(UIxError::ExpectedPathSegment)
    }
}

/// The meta inside an attribute's brackets: the identifier of its path if
/// the path is a single identifier, and the form that follows the path.
pub open spec fn parse_meta(c: Seq<Tok>) -> Result<(Option<Seq<char>>, MetaV), UIxError> {
    let is_unsafe = c.len() > 0 && (c[0] matches Tok::Ident(w) && w == "unsafe"@);
    let lead: int = if path_sep_at(c, 0) { 2 } else { 0 };
    let end = if is_unsafe { Ok(1int) } else { meta_path_end(c, lead, true) };
    match end {
        Err(e) => Err(e),
        Ok(e) => {
            let single = if is_unsafe || (lead == 0 && e == 1) {
                Some(c[0]->Ident_0)
            } else {
                None
            };
            if e < c.len() && (is_group(c[e], Delimiter::Parenthesis) || is_group(
                c[e],
                Delimiter::Bracket,
            ) || is_group(c[e], Delimiter::Brace)) {
                if e + 1 == c.len() {
                    Ok((single, MetaV::List(c[e]->Group_1)))
                } else {
                    Err(UIxError::UnexpectedToken)
                }
            } else if punct_at(c, e, '=') && !(is_joint_punct(c[e], '=') && (punct_at(c, e + 1, '=')
                || punct_at(c, e + 1, '>'))) {
                if e + 1 >= c.len() {
                    Err(UIxError::ExpectedExpr)
                } else if punct_at(c, e + 1, '#') && e + 2 < c.len() && is_group(
                    c[e + 2],
                    Delimiter::Bracket,
                ) {
                    Err(UIxError::UnexpectedToken)
                } else {
                    Ok((single, MetaV::NameValue))
                }
            } else if punct_at(c, e, ':') && e + 3 == c.len() && is_ident_tok(c[e + 1]) && is_group(
                c[e + 2],
                Delimiter::Parenthesis,
            ) {
                Ok((single, MetaV::Named(c[e + 1]->Ident_0, c[e + 2]->Group_1)))
            } else if e == c.len() {
                Ok((single, MetaV::Path))
            } else {
                Err(UIxError::UnexpectedToken)
            }
        },
    }
}

/// What an attribute adds to an element.
pub enum AttrV {
    /// Nothing: the attribute is known and not used.
    Ignored,
    Event(EventV),
    Class(Seq<Seq<Tok>>),
    Style(Seq<Tok>),
}

/// What the attribute with the given name and meta adds to an element.
pub open spec fn classify_attr(name: Option<Seq<char>>, meta: MetaV) -> Result<AttrV, UIxError> {
    match name {
        None => Err(UIxError::AttributeIdent),
        Some(w) => if w == "uuid"@ || w == "when"@ || w == "each"@ || w == "doc"@ {
            Ok(AttrV::Ignored)
        } else if w == "on"@ || w == "class"@ || w == "style"@ {
            match meta {
                MetaV::List(t) => match split_args(t) {
                    None => Err(UIxError::ExpectedExpr),
                    Some(a) => if w == "class"@ {
                        Ok(AttrV::Class(a))
                    } else if a.len() == 0 {
                        Err(UIxError::ExpectedEventName)
                    } else if w == "on"@ {
                        Ok(AttrV::Event(EventV { kind: a[0], handlers: a.skip(1) }))
                    } else {
                        Ok(AttrV::Style(t))
                    },
                },
                MetaV::Named(ev, t) => if w == "on"@ {
                    match split_args(t) {
                        None => Err(UIxError::ExpectedExpr),
                        Some(a) => Ok(AttrV::Event(EventV { kind: seq![Tok::Ident(ev)], handlers: a })),
                    }
                } else {
                    Err(UIxError::ExpectedList)
                },
                _ => Err(UIxError::ExpectedList),
            }
        } else {
            Err(UIxError::UnknownAttribute)
        },
    }
}

/// An attribute at the front of `s`.
pub open spec fn parse_attr(s: Seq<Tok>) -> Result<(AttrV, Seq<Tok>), UIxError> {
    if s.len() > 1 && is_group(s[1], Delimiter::Bracket) {
        match parse_meta(s[1]->Group_1) {
            Err(e) => Err(e),
            Ok((name, meta)) => match classify_attr(name, meta) {
                Err(e) => Err(e),
                Ok(a) => Ok((a, s.skip(2))),
            },
        }
    } else {
        Err(UIxError::ExpectedGroup(Delimiter::Bracket))
    }
}

/// An attribute as it was parsed: what it adds to an element.
pub enum ElementAttribute {
    /// Nothing: the attribute is known and not used.
    Ignored,
    Event(ElementEventAttribute),
    Class(ElementClassAttribute),
    Style(ElementStyleAttribute),
}

impl ElementAttribute {
    pub open spec fn view_attr(&self) -> AttrV {
        match self {
            ElementAttribute::Ignored => AttrV::Ignored,
            ElementAttribute::Event(e) => AttrV::Event(e.view_event()),
            ElementAttribute::Class(c) => AttrV::Class(c.view_class()),
            ElementAttribute::Style(st) => AttrV::Style(st.view_style()),
        }
    }
}

/// The form of a parsed meta after its path.
pub(crate) enum MetaForm {
    Path,
    List(Vec<TokenTree>),
    NameValue,
    Named(String, Vec<TokenTree>),
}

impl MetaForm {
    pub(crate) open spec fn view_meta(&self) -> MetaV {
        match self {
            MetaForm::Path => MetaV::Path,
            MetaForm::List(t) => MetaV::List(toks_view(t@)),
            MetaForm::NameValue => MetaV::NameValue,
            MetaForm::Named(w, t) => MetaV::Named(w@, toks_view(t@)),
        }
    }
}

/// Whether `t` may stand as a segment of an attribute's path.
fn token_is_meta_segment(t: &TokenTree) -> (b: bool)
    ensures
        b == is_meta_segment(t@),
{
    match t {
        TokenTree::Ident(w) => !word_is_keyword(w) || word_is(w, "super") || word_is(w, "self")
            || word_is(w, "Self") || word_is(w, "crate"),
        _ => false,
    }
}

/// Whether `t` is the identifier `unsafe`.
fn token_is_unsafe(t: &TokenTree) -> (b: bool)
    ensures
        b == (t@ matches Tok::Ident(w) && w == "unsafe"@),
{
    match t {
        TokenTree::Ident(w) => word_is(w, "unsafe"),
        _ => false,
    }
}

/// Where an attribute's path ends, given that a segment is expected `i`
/// places from the front of `c`.
fn meta_path_end_at(c: &TokenStream, i: usize, first: bool) -> (r: Result<usize, UIxError>)
    requires
        i <= c@.len(),
    ensures
        match meta_path_end(c@, i as int, first) {
            Ok(e) => r == Ok::<usize, UIxError>(e as usize) && 0 <= e <= c@.len(),
            Err(e) => r == Err::<usize, UIxError>(e),
        },
    decreases c@.len() - i,
{
    let n = c.len();
    let is_segment = match c.peek(i) {
        Some(t) => token_is_meta_segment(t),
        None => false,
};
    if i < n && is_segment {
        if i + 1 < n - 1 && c.peek_path_sep(i + 1) {
            meta_path_end_at(c, i + 3, false)
        } else {
            Ok(i + 1)
        }
    } else if first {
        Err(UIxError::ExpectedIdent)
    } else {
        Err(UIxError::ExpectedPathSegment)
    }
}

/// The identifier at the front of `c`, copied.
fn front_ident(c: &TokenStream) -> (r: String)
    requires
        c@.len() > 0,
        c@[0] is Ident,
    ensures
        r@ == c@[0]->Ident_0,
{
    match c.peek(0) {
        Some(TokenTree::Ident(w)) => w.clone(),
        _ => String::new(),
    }
}

/// Parses the meta inside an attribute's brackets.
pub(crate) fn parse_meta_tokens(inner: Vec<TokenTree>) -> (r: Result<(Option<String>, MetaForm), UIxError>)
    ensures
        match parse_meta(toks_view(inner@)) {
            Ok((name, meta)) => r matches Ok((n, m)) && m.view_meta() == meta && match name {
                Some(w) => n matches Some(v) && v@ == w,
                None => n is None,
            },
            Err(e) => r matches Err(f) && f == e,
        },
{
    let mut c = TokenStream::new(inner);
    let ghost cs = c@;
    let n = c.len();
    let is_unsafe = match c.peek(0) {
        Some(t) => token_is_unsafe(t),
        None => false,
};
    let lead: usize = if c.peek_path_sep(0) { 2 } else { 0 };
    let end = if is_unsafe { Ok(1usize) } else { meta_path_end_at(&c, lead, true) };
    let e = match end {
        Err(err) => {
            return Err(err);
        },
        Ok(e) => e,
};
    let name = if is_unsafe || (lead == 0 && e == 1) {
        Some(front_ident(&c))
    } else {
        None
    };

    let list_at_e = c.peek_group(e, Delimiter::Parenthesis) || c.peek_group(e, Delimiter::Bracket)
        || c.peek_group(e, Delimiter::Brace);
    if e < n && list_at_e {
        if e + 1 == n {
            let _path = c.take(e);
            proof {
                assert(c@[0] == cs[e as int]);
            }
            match c.next() {
                TokenTree::Group(_, list) => Ok((name, MetaForm::List(list))),
                _ => Err(UIxError::UnexpectedToken),
            }
        } else {
            Err(UIxError::UnexpectedToken)
        }
    } else {
        let eq_at_e = c.peek_punct(e, '=');
        let joined = match c.peek(e) {
            Some(t) => crate::uix::token::token_is_joint_punct(t, '='),
            None => false,
};
        if eq_at_e && !(joined && (c.peek_punct(e + 1, '=') || c.peek_punct(e + 1, '>'))) {
            if e + 1 >= n {
                Err(UIxError::ExpectedExpr)
            } else if c.peek_punct(e + 1, '#') && e + 2 < n && c.peek_group(e + 2, Delimiter::Bracket) {
                Err(UIxError::UnexpectedToken)
            } else {
                Ok((name, MetaForm::NameValue))
            }
        } else if c.peek_punct(e, ':') && n - e == 3 && c.peek_ident(e + 1) && c.peek_group(
            e + 2,
            Delimiter::Parenthesis,
        ) {
            let _path = c.take(e);
            let _colon = c.next();
            proof {
                assert(c@[0] == cs[e + 1]);
            }
            let event = take_ident(&mut c);
            proof {
                assert(c@[0] == cs[e + 2]);
            }
            match c.next() {
                TokenTree::Group(_, list) => Ok((name, MetaForm::Named(event, list))),
                _ => Err(UIxError::UnexpectedToken),
            }
        } else if e == n {
            Ok((name, MetaForm::Path))
        } else {
            Err(UIxError::UnexpectedToken)
        }
    }
}

/// The expressions of an argument list, with the values of their tokens.
proof fn lemma_exprs_view(v: Seq<Vec<TokenTree>>, args: Seq<Seq<Tok>>)
    requires
        v.len() == args.len(),
        forall|i: int| 0 <= i < args.len() ==> #[trigger] toks_view(v[i]@) == args[i],
    ensures
        exprs_view(v) == args,
{
    assert(exprs_view(v) =~= args);
}

/// What the attribute with the given name and meta adds to an element.
fn classify_attribute(name: Option<String>, meta: MetaForm) -> (r: Result<ElementAttribute, UIxError>)
    ensures
        match classify_attr(
            match name {
                Some(w) => Some(w@),
                None => None,
            },
            meta.view_meta(),
        ) {
            Ok(a) => r matches Ok(b) && b.view_attr() == a,
            Err(e) => r matches Err(f) && f == e,
        },
{
    let w = match name {
        None => {
            return Err(UIxError::AttributeIdent);
        },
        Some(w) => w,
};
    if word_is(&w, "uuid") || word_is(&w, "when") || word_is(&w, "each") || word_is(&w, "doc") {
        return Ok(ElementAttribute::Ignored);
    }
    let is_class = word_is(&w, "class");
    let is_on = word_is(&w, "on");
    let is_style = word_is(&w, "style");
    if !(is_class || is_on || is_style) {
        return Err(UIxError::UnknownAttribute);
    }
    let tokens = match meta {
        MetaForm::List(t) => t,
        MetaForm::Named(event, t) => {
            if !is_on {
                return Err(UIxError::ExpectedList);
            }
            let ghost tv = toks_view(t@);
            return match split_arguments(t) {
                None => Err(UIxError::ExpectedExpr),
                Some(handlers) => {
                    let ghost av = split_args(tv).unwrap();
                    proof {
                        lemma_exprs_view(handlers@, av);
                    }
                    let mut kind: Vec<TokenTree> = Vec::new();
                    let ghost ew = event@;
                    proof {
                        assert(toks_view(kind@) =~= Seq::<Tok>::empty());
                    }
                    crate::uix::emit::push_token(&mut kind, TokenTree::Ident(event));
                    proof {
                        assert(toks_view(kind@) =~= seq![Tok::Ident(ew)]);
                    }
                    Ok(ElementAttribute::Event(ElementEventAttribute(kind, handlers)))
                },
            };
        },
        _ => {
            return Err(UIxError::ExpectedList);
        },
};
    let ghost tv = toks_view(tokens@);
    let list = duplicate_tokens(&tokens);
    let args = match split_arguments(tokens) {
        None => {
            return Err(UIxError::ExpectedExpr);
        },
        Some(a) => a,
};
    let ghost av = split_args(tv).unwrap();
    proof {
        lemma_exprs_view(args@, av);
    }
    if is_class {
        return Ok(ElementAttribute::Class(ElementClassAttribute(args)));
    }
    if args.len() == 0 {
        return Err(UIxError::ExpectedEventName);
    }
    let mut args = args;
    let first = args.remove(0);
    proof {
        assert(toks_view(first@) == av[0]);
        lemma_exprs_view(args@, av.skip(1));
    }
    if is_on {
        Ok(ElementAttribute::Event(ElementEventAttribute(first, args)))
    } else {
        Ok(ElementAttribute::Style(ElementStyleAttribute(list)))
    }
}

/// Parses an attribute at the front of the stream, past its `#`.
pub fn parse_element_attribute(ts: &mut TokenStream) -> (r: Result<ElementAttribute, UIxError>)
    ensures
        match parse_attr(old(ts)@) {
            Ok((a, rest)) => r matches Ok(b) && b.view_attr() == a && final(ts)@ == rest,
            Err(e) => r matches Err(f) && f == e,
        },
{
    if !(ts.len() > 1 && ts.peek_group(1, Delimiter::Bracket)) {
        return Err(UIxError::ExpectedGroup(Delimiter::Bracket));
    }
    let _pound = ts.next();
    let group = ts.next();
    proof {
        assert(ts@ =~= old(ts)@.skip(2));
    }
    let inner = match group {
        TokenTree::Group(_, inner) => inner,
        _ => Vec::new(),
};
    match parse_meta_tokens(inner) {
        Err(e) => Err(e),
        Ok((name, meta)) => classify_attribute(name, meta),
    }
}

} // verus!
