//! What UIx markup expands to: the calls that build each element on a
//! scaffold.
//!
//! ```text
//! let _00003 = scaffold.add({
//!     ElementTestImpl::default().with_name("Second Root").with_number(0usize)
//! })?
//!     .with_event_attr(Click, click_handler_fn)?
//!     .with_style_attr(BackgroundColor)?
//!     .with_class_attr(my_class)?
//!     .with_children(|scaffold| {
//!         /* the children, the same way */
//!         Ok(())
//!     })?
//!     .build();
//! ```
//!
//! Each prop `key=value` becomes `.with_key(value)`, and a prop without a
//! value, `key`, becomes `.with_key(key)`.
use vstd::prelude::*;

use vstd::string::StringExecFns;

use crate::uix::element::{
    ElementClassAttribute, ElementEventAttribute, ElementProp, ElementStyleAttribute, EventV, PropV,
    exprs_view,
};
use crate::uix::markup::{
    NodeV, UIxElement, classes_view, events_view, lemma_nodes_view_push, nodes_view, props_view,
    styles_view,
};
use crate::uix::token::{
    Delimiter, Spacing, Tok, TokenTree, duplicate_tokens, lemma_toks_view, toks_view,
};

verus! {

/// A punctuation character that stands alone.
pub open spec fn alone(c: char) -> Tok {
    Tok::Punct(c, Spacing::Alone)
}

/// A punctuation character joined to the next one.
pub open spec fn joint(c: char) -> Tok {
    Tok::Punct(c, Spacing::Joint)
}

/// An identifier.
pub open spec fn word(w: Seq<char>) -> Tok {
    Tok::Ident(w)
}

/// A group.
pub open spec fn grp(d: Delimiter, s: Seq<Tok>) -> Tok {
    Tok::Group(d, s)
}

/// `Ok(())`.
pub open spec fn ok_unit() -> Seq<Tok> {
    seq![word("Ok"@), grp(Delimiter::Parenthesis, seq![grp(Delimiter::Parenthesis, Seq::empty())])]
}

/// The character of the digit `d`.
pub open spec fn digit_char(d: nat) -> char {
    (48 + d) as char
}

/// The decimal digits of `n`.
pub open spec fn decimal(n: nat) -> Seq<char>
    decreases n,
{
    if n < 10 {
        seq![digit_char(n)]
    } else {
        decimal(n / 10).push(digit_char(n % 10))
    }
}

/// `n` zeros.
pub open spec fn zeros(n: nat) -> Seq<char> {
    Seq::new(n, |i: int| '0')
}

/// The digits of `n`, with zeros in front up to five digits.
pub open spec fn padded_decimal(n: nat) -> Seq<char> {
    let d = decimal(n);
    if d.len() >= 5 {
        d
    } else {
        zeros((5 - d.len()) as nat) + d
    }
}

/// The generated name of an element: its prefix, `_`, and its number with
/// at least five digits.
pub open spec fn element_name(prefix: Seq<char>, index: usize) -> Seq<char> {
    prefix + seq!['_'] + padded_decimal(index as nat)
}

/// `.method(args)?`
pub open spec fn call_try(method: Seq<char>, args: Seq<Tok>) -> Seq<Tok> {
    seq![alone('.'), word(method), grp(Delimiter::Parenthesis, args), alone('?')]
}

/// `.with_key(value)`, or `.with_key(key)` for a prop without a value.
pub open spec fn prop_tokens(p: PropV) -> Seq<Tok> {
    seq![
        alone('.'),
        word("with_"@ + p.key),
        grp(
            Delimiter::Parenthesis,
            match p.value {
                Some(v) => v,
                None => seq![word(p.key)],
            },
        ),
    ]
}

/// The calls of all the props, in order.
pub open spec fn props_tokens(ps: Seq<PropV>) -> Seq<Tok>
    decreases ps.len(),
{
    if ps.len() == 0 {
        Seq::empty()
    } else {
        props_tokens(ps.drop_last()) + prop_tokens(ps.last())
    }
}

/// `.with_event_attr(kind, handler)?` for each handler, in order.
pub open spec fn handlers_tokens(kind: Seq<Tok>, hs: Seq<Seq<Tok>>) -> Seq<Tok>
    decreases hs.len(),
{
    if hs.len() == 0 {
        Seq::empty()
    } else {
        handlers_tokens(kind, hs.drop_last()) + call_try(
            "with_event_attr"@,
            kind + seq![alone(',')] + hs.last(),
        )
    }
}

/// The calls of all the event attributes, in order.
pub open spec fn events_tokens(es: Seq<EventV>) -> Seq<Tok>
    decreases es.len(),
{
    if es.len() == 0 {
        Seq::empty()
    } else {
        events_tokens(es.drop_last()) + handlers_tokens(es.last().kind, es.last().handlers)
    }
}

/// `.method(x)?` for each expression `x`, in order.
pub open spec fn calls_tokens(method: Seq<char>, xs: Seq<Seq<Tok>>) -> Seq<Tok>
    decreases xs.len(),
{
    if xs.len() == 0 {
        Seq::empty()
    } else {
        calls_tokens(method, xs.drop_last()) + call_try(method, xs.last())
    }
}

/// The calls of all the class attributes, in order.
pub open spec fn classes_tokens(cs: Seq<Seq<Seq<Tok>>>) -> Seq<Tok>
    decreases cs.len(),
{
    if cs.len() == 0 {
        Seq::empty()
    } else {
        classes_tokens(cs.drop_last()) + calls_tokens("with_class_attr"@, cs.last())
    }
}

/// `let name = scaffold.add({ Ident::default() props })?`
pub open spec fn add_tokens(n: NodeV) -> Seq<Tok> {
    seq![
        word("let"@),
        word(element_name(n.prefix, n.index)),
        alone('='),
        word("scaffold"@),
        alone('.'),
        word("add"@),
        grp(
            Delimiter::Parenthesis,
            seq![
                grp(
                    Delimiter::Brace,
                    seq![
                        word(n.ident),
                        joint(':'),
                        alone(':'),
                        word("default"@),
                        grp(Delimiter::Parenthesis, Seq::empty()),
                    ] + props_tokens(n.props),
                ),
            ],
        ),
        alone('?'),
    ]
}

/// `.with_children(|scaffold| { children Ok(()) })?.build();`
pub open spec fn children_tokens(children: Seq<Tok>) -> Seq<Tok> {
    seq![
        alone('.'),
        word("with_children"@),
        grp(
            Delimiter::Parenthesis,
            seq![
                alone('|'),
                word("scaffold"@),
                alone('|'),
                grp(Delimiter::Brace, children + ok_unit()),
            ],
        ),
        alone('?'),
        alone('.'),
        word("build"@),
        grp(Delimiter::Parenthesis, Seq::empty()),
        alone(';'),
    ]
}

/// What an element expands to.
pub open spec fn element_tokens(n: NodeV) -> Seq<Tok>
    decreases n,
{
    add_tokens(n) + events_tokens(n.events) + calls_tokens("with_style_attr"@, n.styles)
        + classes_tokens(n.classes) + children_tokens(nodes_tokens(n.children))
}

/// What a sequence of elements expands to, one after another.
pub open spec fn nodes_tokens(s: Seq<NodeV>) -> Seq<Tok>
    decreases s,
{
    if s.len() == 0 {
        Seq::empty()
    } else {
        nodes_tokens(s.drop_last()) + element_tokens(s.last())
    }
}

/// Pushing a token tree pushes its value.
pub proof fn lemma_toks_view_push(v: Seq<TokenTree>, t: TokenTree)
    ensures
        toks_view(v.push(t)) == toks_view(v).push(t@),
{
    assert(v.push(t).drop_last() =~= v);
}

/// The value of two sequences one after the other.
pub proof fn lemma_toks_view_concat(a: Seq<TokenTree>, b: Seq<TokenTree>)
    ensures
        toks_view(a + b) == toks_view(a) + toks_view(b),
{
    lemma_toks_view(a);
    lemma_toks_view(b);
    lemma_toks_view(a + b);
    assert(toks_view(a + b) =~= toks_view(a) + toks_view(b));
}

/// Pushes a token tree.
pub fn push_token(out: &mut Vec<TokenTree>, t: TokenTree)
    ensures
        toks_view(final(out)@) == toks_view(old(out)@).push(t@),
{
    proof {
        lemma_toks_view_push(out@, t);
    }
    out.push(t);
}

/// Appends token trees.
pub fn append_tokens(out: &mut Vec<TokenTree>, v: Vec<TokenTree>)
    ensures
        toks_view(final(out)@) == toks_view(old(out)@) + toks_view(v@),
{
    let mut v = v;
    proof {
        lemma_toks_view_concat(out@, v@);
    }
    out.append(&mut v);
}

/// The identifier `w`.
pub fn ident_token(w: &str) -> (t: TokenTree)
    ensures
        t@ == word(w@),
{
    TokenTree::Ident(String::from_str(w))
}

/// The identifier whose text is `w`.
pub fn ident_of(w: &String) -> (t: TokenTree)
    ensures
        t@ == word(w@),
{
    TokenTree::Ident(w.clone())
}

/// The punctuation character `c`, alone.
pub fn alone_token(c: char) -> (t: TokenTree)
    ensures
        t@ == alone(c),
{
    TokenTree::Punct(c, Spacing::Alone)
}

/// A group of the given token trees.
pub fn group_token(d: Delimiter, v: Vec<TokenTree>) -> (t: TokenTree)
    ensures
        t@ == grp(d, toks_view(v@)),
{
    TokenTree::Group(d, v)
}

/// An empty group.
pub fn empty_group(d: Delimiter) -> (t: TokenTree)
    ensures
        t@ == grp(d, Seq::empty()),
{
    let v: Vec<TokenTree> = Vec::new();
    proof {
        assert(toks_view(v@) =~= Seq::<Tok>::empty());
    }
    TokenTree::Group(d, v)
}

/// The text of the digit `d`.
fn digit_text(d: usize) -> (r: &'static str)
    requires
        d < 10,
    ensures
        r@ == seq![digit_char(d as nat)],
{
    if d == 0 {
        proof { reveal_strlit("0"); }
        "0"
    } else if d == 1 {
        proof { reveal_strlit("1"); }
        "1"
    } else if d == 2 {
        proof { reveal_strlit("2"); }
        "2"
    } else if d == 3 {
        proof { reveal_strlit("3"); }
        "3"
    } else if d == 4 {
        proof { reveal_strlit("4"); }
        "4"
    } else if d == 5 {
        proof { reveal_strlit("5"); }
        "5"
    } else if d == 6 {
        proof { reveal_strlit("6"); }
        "6"
    } else if d == 7 {
        proof { reveal_strlit("7"); }
        "7"
    } else if d == 8 {
        proof { reveal_strlit("8"); }
        "8"
    } else {
        proof { reveal_strlit("9"); }
        "9"
    }
}

/// Appends the decimal digits of `n`.
fn append_decimal(out: &mut String, n: usize)
    ensures
        final(out)@ == old(out)@ + decimal(n as nat),
    decreases n,
{
    if n >= 10 {
        append_decimal(out, n / 10);
    }
    out.append(digit_text(n % 10));
    proof {
        if n >= 10 {
            assert(old(out)@ + decimal((n / 10) as nat) + seq![digit_char((n % 10) as nat)]
                =~= old(out)@ + decimal(n as nat));
        } else {
            assert(old(out)@ + seq![digit_char(n as nat)] =~= old(out)@ + decimal(n as nat));
        }
    }
}

/// `n` has no more decimal digits than `n + 1`.
proof fn lemma_decimal_len(n: nat)
    ensures
        1 <= decimal(n).len() <= n + 1,
    decreases n,
{
    if n >= 10 {
        lemma_decimal_len(n / 10);
    }
}

/// The number of decimal digits of `n`.
fn decimal_len(n: usize) -> (r: usize)
    ensures
        r == decimal(n as nat).len(),
    decreases n,
{
    if n < 10 {
        1
    } else {
        let r = decimal_len(n / 10);
        proof {
            lemma_decimal_len((n / 10) as nat);
        }
        r + 1
    }
}

impl UIxElement {
    /// The element's generated name: its prefix, `_`, and its number with at
    /// least five digits.
    pub fn name(&self) -> (r: String)
        ensures
            r@ == element_name(self.prefix@, self.index),
    {
        let mut out = self.prefix.clone();
        proof { reveal_strlit("_"); }
        out.append("_");
        let len = decimal_len(self.index);
        if len < 5 {
            let ghost base = out@;
            let mut k: usize = 0;
            while k < 5 - len
                invariant
                    k <= 5 - len,
                    len < 5,
                    out@ == base + zeros(k as nat),
                decreases 5 - len - k,
            {
                proof { reveal_strlit("0"); }
                out.append("0");
                proof {
                    assert(base + zeros(k as nat) + "0"@ =~= base + zeros((k + 1) as nat));
                }
                k = k + 1;
            }
        }
        let ghost before = out@;
        append_decimal(&mut out, self.index);
        proof {
            let d = decimal(self.index as nat);
            if d.len() >= 5 {
                assert(out@ =~= element_name(self.prefix@, self.index));
            } else {
                assert(out@ =~= element_name(self.prefix@, self.index));
            }
        }
        out
    }
}

/// The method name `with_` followed by `key`.
fn with_method(key: &String) -> (r: String)
    ensures
        r@ == "with_"@ + key@,
{
    let mut m = String::from_str("with_");
    m.append(key.as_str());
    m
}

/// `.method(args)?`, from the method's name and its arguments.
fn call_try_tokens(out: &mut Vec<TokenTree>, method: TokenTree, args: Vec<TokenTree>)
    requires
        method@ is Ident,
    ensures
        toks_view(final(out)@) == toks_view(old(out)@) + call_try(method@->Ident_0, toks_view(args@)),
{
    let ghost init = toks_view(out@);
    let ghost m = method@;
    let ghost a = toks_view(args@);
    push_token(out, alone_token('.'));
    push_token(out, method);
    push_token(out, group_token(Delimiter::Parenthesis, args));
    push_token(out, alone_token('?'));
    proof {
        assert(toks_view(out@) =~= init + call_try(m->Ident_0, a));
    }
}

/// Appends the calls of the props.
fn props_to_tokens(props: &Vec<ElementProp>, out: &mut Vec<TokenTree>)
    ensures
        toks_view(final(out)@) == toks_view(old(out)@) + props_tokens(props_view(props@)),
{
    let ghost init = toks_view(out@);
    let ghost pv = props_view(props@);
    let mut i: usize = 0;
    proof {
        assert(pv.take(0) =~= Seq::<PropV>::empty());
        assert(init + props_tokens(Seq::<PropV>::empty()) =~= init);
    }
    while i < props.len()
        invariant
            i <= props.len(),
            pv == props_view(props@),
            toks_view(out@) == init + props_tokens(pv.take(i as int)),
        decreases props.len() - i,
    {
        let p = &props[i];
        let ghost before = toks_view(out@);
        push_token(out, alone_token('.'));
        push_token(out, TokenTree::Ident(with_method(&p.key)));
        let args = match &p.value {
            Some(v) => duplicate_tokens(&v.0),
            None => {
                let mut a: Vec<TokenTree> = Vec::new();
                push_token(&mut a, ident_of(&p.key));
                a
            },
};
        proof {
            if p.value is None {
                assert(toks_view(args@) =~= seq![word(p.key@)]);
            }
        }
        push_token(out, group_token(Delimiter::Parenthesis, args));
        proof {
            assert(pv[i as int] == p.view_prop());
            assert(pv.take(i + 1).drop_last() =~= pv.take(i as int));
            assert(toks_view(out@) =~= before + prop_tokens(pv[i as int]));
            assert(init + props_tokens(pv.take(i as int)) + prop_tokens(pv[i as int])
                =~= init + props_tokens(pv.take(i + 1)));
        }
        i = i + 1;
    }
    proof {
        assert(pv.take(i as int) =~= pv);
    }
}

/// Appends `.method(x)?` for each expression `x`.
fn calls_to_tokens(method: &str, xs: &Vec<Vec<TokenTree>>, out: &mut Vec<TokenTree>)
    ensures
        toks_view(final(out)@) == toks_view(old(out)@) + calls_tokens(method@, exprs_view(xs@)),
{
    let ghost init = toks_view(out@);
    let ghost xv = exprs_view(xs@);
    let mut i: usize = 0;
    proof {
        assert(xv.take(0) =~= Seq::<Seq<Tok>>::empty());
        assert(init + calls_tokens(method@, Seq::<Seq<Tok>>::empty()) =~= init);
    }
    while i < xs.len()
        invariant
            i <= xs.len(),
            xv == exprs_view(xs@),
            toks_view(out@) == init + calls_tokens(method@, xv.take(i as int)),
        decreases xs.len() - i,
    {
        let args = duplicate_tokens(&xs[i]);
        call_try_tokens(out, ident_token(method), args);
        proof {
            assert(xv.take(i + 1).drop_last() =~= xv.take(i as int));
            assert(init + calls_tokens(method@, xv.take(i as int)) + call_try(method@, xv[i as int])
                =~= init + calls_tokens(method@, xv.take(i + 1)));
        }
        i = i + 1;
    }
    proof {
        assert(xv.take(i as int) =~= xv);
    }
}

/// Appends the calls of the event attributes.
fn events_to_tokens(events: &Vec<ElementEventAttribute>, out: &mut Vec<TokenTree>)
    ensures
        toks_view(final(out)@) == toks_view(old(out)@) + events_tokens(events_view(events@)),
{
    let ghost init = toks_view(out@);
    let ghost ev = events_view(events@);
    let mut i: usize = 0;
    proof {
        assert(ev.take(0) =~= Seq::<EventV>::empty());
        assert(init + events_tokens(Seq::<EventV>::empty()) =~= init);
    }
    while i < events.len()
        invariant
            i <= events.len(),
            ev == events_view(events@),
            toks_view(out@) == init + events_tokens(ev.take(i as int)),
        decreases events.len() - i,
    {
        let e = &events[i];
        let kind = e.kind();
        let handlers = e.handlers();
        let ghost kv = toks_view(kind@);
        let ghost hv = exprs_view(handlers@);
        let ghost before = toks_view(out@);
        let mut j: usize = 0;
        proof {
            assert(hv.take(0) =~= Seq::<Seq<Tok>>::empty());
            assert(before + handlers_tokens(kv, Seq::<Seq<Tok>>::empty()) =~= before);
        }
        while j < handlers.len()
            invariant
                j <= handlers.len(),
                kv == toks_view(kind@),
                hv == exprs_view(handlers@),
                toks_view(out@) == before + handlers_tokens(kv, hv.take(j as int)),
            decreases handlers.len() - j,
        {
            let mut args = duplicate_tokens(kind);
            let ghost a0 = toks_view(args@);
            push_token(&mut args, alone_token(','));
            append_tokens(&mut args, duplicate_tokens(&handlers[j]));
            proof {
                assert(toks_view(args@) =~= kv + seq![alone(',')] + hv[j as int]);
            }
            call_try_tokens(out, ident_token("with_event_attr"), args);
            proof {
                assert(hv.take(j + 1).drop_last() =~= hv.take(j as int));
                assert(before + handlers_tokens(kv, hv.take(j as int)) + call_try(
                    "with_event_attr"@,
                    kv + seq![alone(',')] + hv[j as int],
                ) =~= before + handlers_tokens(kv, hv.take(j + 1)));
            }
            j = j + 1;
        }
        proof {
            assert(hv.take(j as int) =~= hv);
            assert(ev[i as int] == e.view_event());
            assert(ev.take(i + 1).drop_last() =~= ev.take(i as int));
            assert(init + events_tokens(ev.take(i as int)) + handlers_tokens(kv, hv)
                =~= init + events_tokens(ev.take(i + 1)));
        }
        i = i + 1;
    }
    proof {
        assert(ev.take(i as int) =~= ev);
    }
}

/// Appends the calls of the style attributes.
fn styles_to_tokens(styles: &Vec<ElementStyleAttribute>, out: &mut Vec<TokenTree>)
    ensures
        toks_view(final(out)@) == toks_view(old(out)@) + calls_tokens(
            "with_style_attr"@,
            styles_view(styles@),
        ),
{
    let ghost init = toks_view(out@);
    let ghost sv = styles_view(styles@);
    let mut i: usize = 0;
    proof {
        assert(sv.take(0) =~= Seq::<Seq<Tok>>::empty());
        assert(init + calls_tokens("with_style_attr"@, Seq::<Seq<Tok>>::empty()) =~= init);
    }
    while i < styles.len()
        invariant
            i <= styles.len(),
            sv == styles_view(styles@),
            toks_view(out@) == init + calls_tokens("with_style_attr"@, sv.take(i as int)),
        decreases styles.len() - i,
    {
        let args = duplicate_tokens(styles[i].expr());
        proof {
            assert(sv[i as int] == styles@[i as int].view_style());
        }
        call_try_tokens(out, ident_token("with_style_attr"), args);
        proof {
            assert(sv.take(i + 1).drop_last() =~= sv.take(i as int));
            assert(init + calls_tokens("with_style_attr"@, sv.take(i as int)) + call_try(
                "with_style_attr"@,
                sv[i as int],
            ) =~= init + calls_tokens("with_style_attr"@, sv.take(i + 1)));
        }
        i = i + 1;
    }
    proof {
        assert(sv.take(i as int) =~= sv);
    }
}

/// Appends the calls of the class attributes.
fn classes_to_tokens(classes: &Vec<ElementClassAttribute>, out: &mut Vec<TokenTree>)
    ensures
        toks_view(final(out)@) == toks_view(old(out)@) + classes_tokens(classes_view(classes@)),
{
    let ghost init = toks_view(out@);
    let ghost cv = classes_view(classes@);
    let mut i: usize = 0;
    proof {
        assert(cv.take(0) =~= Seq::<Seq<Seq<Tok>>>::empty());
        assert(init + classes_tokens(Seq::<Seq<Seq<Tok>>>::empty()) =~= init);
    }
    while i < classes.len()
        invariant
            i <= classes.len(),
            cv == classes_view(classes@),
            toks_view(out@) == init + classes_tokens(cv.take(i as int)),
        decreases classes.len() - i,
    {
        let ghost before = toks_view(out@);
        calls_to_tokens("with_class_attr", classes[i].classes(), out);
        proof {
            assert(cv[i as int] == classes@[i as int].view_class());
            assert(cv.take(i + 1).drop_last() =~= cv.take(i as int));
            assert(init + classes_tokens(cv.take(i as int)) + calls_tokens(
                "with_class_attr"@,
                cv[i as int],
            ) =~= init + classes_tokens(cv.take(i + 1)));
        }
        i = i + 1;
    }
    proof {
        assert(cv.take(i as int) =~= cv);
    }
}

/// What a sequence of elements expands to, after one more.
proof fn lemma_nodes_tokens_push(s: Seq<NodeV>, n: NodeV)
    ensures
        nodes_tokens(s.push(n)) == nodes_tokens(s) + element_tokens(n),
{
    assert(s.push(n).drop_last() =~= s);
}

impl UIxElement {
    /// Appends what the element expands to: the calls that add it to a
    /// scaffold, with its props, attributes and children.
    pub fn to_tokens(&self, tokens: &mut Vec<TokenTree>)
        ensures
            toks_view(final(tokens)@) == toks_view(old(tokens)@) + element_tokens(self.node()),
        decreases self,
    {
        let ghost n = self.node();
        let ghost init = toks_view(tokens@);
        proof {
            assert(n.ident == self.ident@);
            assert(n.prefix == self.prefix@);
            assert(n.index == self.index);
            assert(n.props == props_view(self.props@));
            assert(n.children == nodes_view(self.children@));
        }
        let mut inner: Vec<TokenTree> = Vec::new();
        push_token(&mut inner, ident_of(&self.ident));
        push_token(&mut inner, TokenTree::Punct(':', Spacing::Joint));
        push_token(&mut inner, alone_token(':'));
        push_token(&mut inner, ident_token("default"));
        push_token(&mut inner, empty_group(Delimiter::Parenthesis));
        props_to_tokens(&self.props, &mut inner);
        let ghost iv = toks_view(inner@);
        proof {
            assert(iv =~= seq![
                word(n.ident),
                joint(':'),
                alone(':'),
                word("default"@),
                grp(Delimiter::Parenthesis, Seq::empty()),
            ] + props_tokens(n.props));
        }
        let mut braced: Vec<TokenTree> = Vec::new();
        push_token(&mut braced, group_token(Delimiter::Brace, inner));
        let ghost bv = toks_view(braced@);
        proof {
            assert(bv =~= seq![grp(Delimiter::Brace, iv)]);
        }
        let mut add: Vec<TokenTree> = Vec::new();
        push_token(&mut add, ident_token("let"));
        let name = self.name();
        let ghost nm = name@;
        push_token(&mut add, TokenTree::Ident(name));
        push_token(&mut add, alone_token('='));
        push_token(&mut add, ident_token("scaffold"));
        push_token(&mut add, alone_token('.'));
        push_token(&mut add, ident_token("add"));
        push_token(&mut add, group_token(Delimiter::Parenthesis, braced));
        push_token(&mut add, alone_token('?'));
        proof {
            assert(toks_view(add@) =~= add_tokens(n));
        }
        append_tokens(tokens, add);
        events_to_tokens(&self.events, tokens);
        styles_to_tokens(&self.styles, tokens);
        classes_to_tokens(&self.classes, tokens);
        let mut kids: Vec<TokenTree> = Vec::new();
        let mut i: usize = 0;
        proof {
            assert(self.children@.take(0) =~= Seq::<UIxElement>::empty());
            assert(toks_view(kids@) =~= nodes_tokens(nodes_view(self.children@.take(0))));
        }
        while i < self.children.len()
            invariant
                i <= self.children.len(),
                toks_view(kids@) == nodes_tokens(nodes_view(self.children@.take(i as int))),
            decreases self.children.len() - i,
        {
            proof {
                assert(decreases_to!(self.children => self.children[i as int])) by {
                    broadcast use vstd::std_specs::vec::axiom_vec_index_decreases;
                }
            }
            let ghost before = toks_view(kids@);
            self.children[i].to_tokens(&mut kids);
            proof {
                assert(self.children@.take(i + 1) =~= self.children@.take(i as int).push(
                    self.children@[i as int],
                ));
                lemma_nodes_view_push(self.children@.take(i as int), self.children@[i as int]);
                lemma_nodes_tokens_push(
                    nodes_view(self.children@.take(i as int)),
                    self.children@[i as int].node(),
                );
            }
            i = i + 1;
        }
        proof {
            assert(self.children@.take(i as int) =~= self.children@);
        }
        let ghost kv = toks_view(kids@);
        push_token(&mut kids, ident_token("Ok"));
        let mut unit: Vec<TokenTree> = Vec::new();
        push_token(&mut unit, empty_group(Delimiter::Parenthesis));
        push_token(&mut kids, group_token(Delimiter::Parenthesis, unit));
        proof {
            assert(toks_view(kids@) =~= kv + ok_unit());
        }
        let mut closure: Vec<TokenTree> = Vec::new();
        push_token(&mut closure, alone_token('|'));
        push_token(&mut closure, ident_token("scaffold"));
        push_token(&mut closure, alone_token('|'));
        push_token(&mut closure, group_token(Delimiter::Brace, kids));
        let mut tail: Vec<TokenTree> = Vec::new();
        let ghost cv = toks_view(closure@);
        proof {
            assert(cv =~= seq![
                alone('|'),
                word("scaffold"@),
                alone('|'),
                grp(Delimiter::Brace, kv + ok_unit()),
            ]);
        }
        push_token(&mut tail, alone_token('.'));
        push_token(&mut tail, ident_token("with_children"));
        push_token(&mut tail, group_token(Delimiter::Parenthesis, closure));
        push_token(&mut tail, alone_token('?'));
        push_token(&mut tail, alone_token('.'));
        push_token(&mut tail, ident_token("build"));
        push_token(&mut tail, empty_group(Delimiter::Parenthesis));
        push_token(&mut tail, alone_token(';'));
        proof {
            assert(toks_view(tail@) =~= children_tokens(kv));
        }
        append_tokens(tokens, tail);
        proof {
            assert(toks_view(tokens@) =~= init + element_tokens(n));
        }
    }
}

/// The event calls of two runs of event attributes, one after the other,
/// are those of the first run followed by those of the second: no
/// attribute's calls are dropped, repeated or reordered.
pub proof fn lemma_events_tokens_concat(a: Seq<EventV>, b: Seq<EventV>)
    ensures
        events_tokens(a + b) == events_tokens(a) + events_tokens(b),
    decreases b.len(),
{
    if b.len() == 0 {
        assert(a + b =~= a);
        assert(events_tokens(a) + events_tokens(b) =~= events_tokens(a));
    } else {
        lemma_events_tokens_concat(a, b.drop_last());
        assert((a + b).drop_last() =~= a + b.drop_last());
        assert((a + b).last() == b.last());
        assert(events_tokens(a) + events_tokens(b.drop_last()) + handlers_tokens(
            b.last().kind,
            b.last().handlers,
        ) =~= events_tokens(a) + events_tokens(b));
    }
}

/// One event attribute gives one call `.with_event_attr(kind, handler)?`
/// for each of its handlers.
pub proof fn lemma_events_tokens_one(e: EventV)
    ensures
        events_tokens(seq![e]) == handlers_tokens(e.kind, e.handlers),
{
    assert(seq![e].drop_last() =~= Seq::<EventV>::empty());
    assert(seq![e].last() == e);
    assert(events_tokens(Seq::<EventV>::empty()) == Seq::<Tok>::empty());
    assert(events_tokens(seq![e]) == events_tokens(seq![e].drop_last()) + handlers_tokens(
        e.kind,
        e.handlers,
    ));
    assert(Seq::<Tok>::empty() + handlers_tokens(e.kind, e.handlers) =~= handlers_tokens(
        e.kind,
        e.handlers,
    ));
}

/// The calls of two runs of handlers of one event kind, one after the
/// other, are those of the first run followed by those of the second.
pub proof fn lemma_handlers_tokens_concat(kind: Seq<Tok>, a: Seq<Seq<Tok>>, b: Seq<Seq<Tok>>)
    ensures
        handlers_tokens(kind, a + b) == handlers_tokens(kind, a) + handlers_tokens(kind, b),
    decreases b.len(),
{
    if b.len() == 0 {
        assert(a + b =~= a);
        assert(handlers_tokens(kind, a) + handlers_tokens(kind, b) =~= handlers_tokens(kind, a));
    } else {
        lemma_handlers_tokens_concat(kind, a, b.drop_last());
        assert((a + b).drop_last() =~= a + b.drop_last());
        assert((a + b).last() == b.last());
        assert(handlers_tokens(kind, a) + handlers_tokens(kind, b.drop_last()) + call_try(
            "with_event_attr"@,
            kind + seq![alone(',')] + b.last(),
        ) =~= handlers_tokens(kind, a) + handlers_tokens(kind, b));
    }
}

/// One handler gives exactly the call `.with_event_attr(kind, handler)?`.
pub proof fn lemma_handlers_tokens_one(kind: Seq<Tok>, handler: Seq<Tok>)
    ensures
        handlers_tokens(kind, seq![handler]) == call_try(
            "with_event_attr"@,
            kind + seq![alone(',')] + handler,
        ),
{
    assert(seq![handler].drop_last() =~= Seq::<Seq<Tok>>::empty());
    assert(seq![handler].last() == handler);
    assert(handlers_tokens(kind, Seq::<Seq<Tok>>::empty()) == Seq::<Tok>::empty());
    assert(handlers_tokens(kind, seq![handler]) == handlers_tokens(kind, seq![handler].drop_last())
        + call_try("with_event_attr"@, kind + seq![alone(',')] + handler));
    assert(Seq::<Tok>::empty() + call_try("with_event_attr"@, kind + seq![alone(',')] + handler)
        =~= call_try("with_event_attr"@, kind + seq![alone(',')] + handler));
}

/// The number of token trees that the calls of `n` handlers take: each call
/// `.with_event_attr(..)?` is four token trees.
pub proof fn lemma_handlers_tokens_len(kind: Seq<Tok>, hs: Seq<Seq<Tok>>)
    ensures
        handlers_tokens(kind, hs).len() == 4 * hs.len(),
    decreases hs.len(),
{
    if hs.len() > 0 {
        lemma_handlers_tokens_len(kind, hs.drop_last());
    }
}

/// The calls of two runs of expressions, one after the other, are those of
/// the first run followed by those of the second.
pub proof fn lemma_calls_tokens_concat(method: Seq<char>, a: Seq<Seq<Tok>>, b: Seq<Seq<Tok>>)
    ensures
        calls_tokens(method, a + b) == calls_tokens(method, a) + calls_tokens(method, b),
    decreases b.len(),
{
    if b.len() == 0 {
        assert(a + b =~= a);
        assert(calls_tokens(method, a) + calls_tokens(method, b) =~= calls_tokens(method, a));
    } else {
        lemma_calls_tokens_concat(method, a, b.drop_last());
        assert((a + b).drop_last() =~= a + b.drop_last());
        assert((a + b).last() == b.last());
        assert(calls_tokens(method, a) + calls_tokens(method, b.drop_last()) + call_try(
            method,
            b.last(),
        ) =~= calls_tokens(method, a) + calls_tokens(method, b));
    }
}

/// One expression gives exactly the call `.method(x)?`.
pub proof fn lemma_calls_tokens_one(method: Seq<char>, x: Seq<Tok>)
    ensures
        calls_tokens(method, seq![x]) == call_try(method, x),
{
    assert(seq![x].drop_last() =~= Seq::<Seq<Tok>>::empty());
    assert(seq![x].last() == x);
    assert(calls_tokens(method, Seq::<Seq<Tok>>::empty()) == Seq::<Tok>::empty());
    assert(calls_tokens(method, seq![x]) == calls_tokens(method, seq![x].drop_last()) + call_try(
        method,
        x,
    ));
    assert(Seq::<Tok>::empty() + call_try(method, x) =~= call_try(method, x));
}

/// The class calls of two runs of class attributes, one after the other,
/// are those of the first run followed by those of the second.
pub proof fn lemma_classes_tokens_concat(a: Seq<Seq<Seq<Tok>>>, b: Seq<Seq<Seq<Tok>>>)
    ensures
        classes_tokens(a + b) == classes_tokens(a) + classes_tokens(b),
    decreases b.len(),
{
    if b.len() == 0 {
        assert(a + b =~= a);
        assert(classes_tokens(a) + classes_tokens(b) =~= classes_tokens(a));
    } else {
        lemma_classes_tokens_concat(a, b.drop_last());
        assert((a + b).drop_last() =~= a + b.drop_last());
        assert((a + b).last() == b.last());
        assert(classes_tokens(a) + classes_tokens(b.drop_last()) + calls_tokens(
            "with_class_attr"@,
            b.last(),
        ) =~= classes_tokens(a) + classes_tokens(b));
    }
}

/// One class attribute gives one call `.with_class_attr(x)?` for each of its
/// expressions.
pub proof fn lemma_classes_tokens_one(c: Seq<Seq<Tok>>)
    ensures
        classes_tokens(seq![c]) == calls_tokens("with_class_attr"@, c),
{
    assert(seq![c].drop_last() =~= Seq::<Seq<Seq<Tok>>>::empty());
    assert(seq![c].last() == c);
    assert(classes_tokens(Seq::<Seq<Seq<Tok>>>::empty()) == Seq::<Tok>::empty());
    assert(classes_tokens(seq![c]) == classes_tokens(seq![c].drop_last()) + calls_tokens(
        "with_class_attr"@,
        c,
    ));
    assert(Seq::<Tok>::empty() + calls_tokens("with_class_attr"@, c) =~= calls_tokens(
        "with_class_attr"@,
        c,
    ));
}

/// The prop calls of two runs of props, one after the other, are those of
/// the first run followed by those of the second.
pub proof fn lemma_props_tokens_concat(a: Seq<PropV>, b: Seq<PropV>)
    ensures
        props_tokens(a + b) == props_tokens(a) + props_tokens(b),
    decreases b.len(),
{
    if b.len() == 0 {
        assert(a + b =~= a);
        assert(props_tokens(a) + props_tokens(b) =~= props_tokens(a));
    } else {
        lemma_props_tokens_concat(a, b.drop_last());
        assert((a + b).drop_last() =~= a + b.drop_last());
        assert((a + b).last() == b.last());
        assert(props_tokens(a) + props_tokens(b.drop_last()) + prop_tokens(b.last()) =~= props_tokens(
            a,
        ) + props_tokens(b));
    }
}

/// One prop `key=value` gives exactly `.with_key(value)`, and a prop
/// `key` without a value gives `.with_key(key)`.
pub proof fn lemma_props_tokens_one(p: PropV)
    ensures
        props_tokens(seq![p]) == seq![
            alone('.'),
            word("with_"@ + p.key),
            grp(
                Delimiter::Parenthesis,
                match p.value {
                    Some(v) => v,
                    None => seq![word(p.key)],
                },
            ),
        ],
{
    assert(seq![p].drop_last() =~= Seq::<PropV>::empty());
    assert(seq![p].last() == p);
    assert(props_tokens(Seq::<PropV>::empty()) == Seq::<Tok>::empty());
    assert(props_tokens(seq![p]) == props_tokens(seq![p].drop_last()) + prop_tokens(p));
    assert(Seq::<Tok>::empty() + prop_tokens(p) =~= prop_tokens(p));
}

/// What elements written one after another expand to is what each expands
/// to, in order.
pub proof fn lemma_nodes_tokens_concat(a: Seq<NodeV>, b: Seq<NodeV>)
    ensures
        nodes_tokens(a + b) == nodes_tokens(a) + nodes_tokens(b),
    decreases b.len(),
{
    if b.len() == 0 {
        assert(a + b =~= a);
        assert(nodes_tokens(a) + nodes_tokens(b) =~= nodes_tokens(a));
    } else {
        lemma_nodes_tokens_concat(a, b.drop_last());
        assert((a + b).drop_last() =~= a + b.drop_last());
        assert((a + b).last() == b.last());
        assert(nodes_tokens(a) + nodes_tokens(b.drop_last()) + element_tokens(b.last())
            =~= nodes_tokens(a) + nodes_tokens(b));
    }
}

} // verus!
