//! UIx elements and blocks, and their parsing.
//!
//! ```text
//! .card, .wide { Padding(4), Width(80) }
//! #[on(Click, click_handler_fn)]
//! <ElementTestImpl name="First Root" number=0usize>
//!     <ElementTestImpl name="Child" />
//! </ElementTestImpl>
//! ```
//!
//! A block is a sequence of root elements and class blocks, in any order,
//! where a class block is followed by more of the block:
//! a class block is class names (`.name`, separated by commas) and a braced,
//! comma-separated list of style expressions that each of those classes
//! gets. An element is its attributes, an opening tag with props, and either
//! `/>` or its children and a closing tag that names it again.
use vstd::prelude::*;

use crate::uix::element::{
    AttrV, ElementAttribute, ElementClassAttribute, ElementEventAttribute, ElementProp,
    ElementStyleAttribute, EventV, PropV, exprs_view, lemma_parse_prop_shrinks, parse_attr,
    parse_element_attribute, parse_element_prop, parse_prop,
};
use crate::uix::syntax::{UIxError, is_ident_tok, split_args, split_arguments};
use crate::uix::token::{
    Delimiter, Tok, TokenStream, TokenTree, duplicate_tokens, is_group, punct_at, toks_view,
};

verus! {

/// The value of an element.
pub struct NodeV {
    pub ident: Seq<char>,
    pub prefix: Seq<char>,
    pub root: bool,
    pub index: usize,
    pub is_closed: bool,
    pub events: Seq<EventV>,
    pub classes: Seq<Seq<Seq<Tok>>>,
    pub styles: Seq<Seq<Tok>>,
    pub props: Seq<PropV>,
    pub children: Seq<NodeV>,
}

/// An element of a UIx block.
pub struct UIxElement {
    /// The element's type, as named by its tag.
    pub ident: String,
    /// The prefix of the element's generated name.
    pub prefix: String,
    /// Whether the element is a root of its block.
    pub root: bool,
    /// The element's number, in the order in which elements were opened.
    pub index: usize,
    /// Whether the element's tag closed itself (`/>`).
    pub is_closed: bool,
    /// The element's event attributes.
    pub events: Vec<ElementEventAttribute>,
    /// The element's class attributes.
    pub classes: Vec<ElementClassAttribute>,
    /// The element's style attributes.
    pub styles: Vec<ElementStyleAttribute>,
    /// The element's props.
    pub props: Vec<ElementProp>,
    /// The element's children.
    pub children: Vec<UIxElement>,
}

/// The values of a sequence of props.
pub open spec fn props_view(s: Seq<ElementProp>) -> Seq<PropV> {
    s.map_values(|p: ElementProp| p.view_prop())
}

/// The values of a sequence of event attributes.
pub open spec fn events_view(s: Seq<ElementEventAttribute>) -> Seq<EventV> {
    s.map_values(|e: ElementEventAttribute| e.view_event())
}

/// The values of a sequence of class attributes.
pub open spec fn classes_view(s: Seq<ElementClassAttribute>) -> Seq<Seq<Seq<Tok>>> {
    s.map_values(|c: ElementClassAttribute| c.view_class())
}

/// The values of a sequence of style attributes.
pub open spec fn styles_view(s: Seq<ElementStyleAttribute>) -> Seq<Seq<Tok>> {
    s.map_values(|st: ElementStyleAttribute| st.view_style())
}

impl UIxElement {
    /// The value of the element.
    pub open spec fn node(&self) -> NodeV
        decreases self,
    {
        NodeV {
            ident: self.ident@,
            prefix: self.prefix@,
            root: self.root,
            index: self.index,
            is_closed: self.is_closed,
            events: events_view(self.events@),
            classes: classes_view(self.classes@),
            styles: styles_view(self.styles@),
            props: props_view(self.props@),
            children: nodes_view(self.children@),
        }
    }
}

/// The values of a sequence of elements.
pub open spec fn nodes_view(s: Seq<UIxElement>) -> Seq<NodeV>
    decreases s,
{
    if s.len() == 0 {
        Seq::empty()
    } else {
        nodes_view(s.drop_last()).push(s.last().node())
    }
}

/// The attributes gathered in front of an element.
#[verifier::ext_equal]
pub struct AttrsV {
    pub events: Seq<EventV>,
    pub classes: Seq<Seq<Seq<Tok>>>,
    pub styles: Seq<Seq<Tok>>,
}

/// No attributes.
pub open spec fn no_attrs() -> AttrsV {
    AttrsV { events: Seq::empty(), classes: Seq::empty(), styles: Seq::empty() }
}

/// The attributes `acc` and then `a`.
pub open spec fn add_attr(acc: AttrsV, a: AttrV) -> AttrsV {
    match a {
        AttrV::Ignored => acc,
        AttrV::Event(e) => AttrsV { events: acc.events.push(e), ..acc },
        AttrV::Class(c) => AttrsV { classes: acc.classes.push(c), ..acc },
        AttrV::Style(st) => AttrsV { styles: acc.styles.push(st), ..acc },
    }
}

/// The attributes at the front of `s`, after those in `acc`.
pub open spec fn parse_attrs(s: Seq<Tok>, acc: AttrsV) -> Result<(AttrsV, Seq<Tok>), UIxError>
    decreases s.len(),
{
    if punct_at(s, 0, '#') {
        match parse_attr(s) {
            Err(e) => Err(e),
            Ok((a, rest)) => if rest.len() < s.len() {
                parse_attrs(rest, add_attr(acc, a))
            } else {
                Err(UIxError::ExpectedPunct('#'))
            },
        }
    } else {
        Ok((acc, s))
    }
}

/// The props of an opening tag, after those in `acc`, up to and past its
/// end: `>`, or `/>` for a tag that closes itself (the `bool`).
pub open spec fn parse_props(s: Seq<Tok>, acc: Seq<PropV>) -> Result<
    (Seq<PropV>, bool, Seq<Tok>),
    UIxError,
>
    decreases s.len(),
{
    if punct_at(s, 0, '>') {
        Ok((acc, false, s.skip(1)))
    } else if punct_at(s, 0, '/') && punct_at(s, 1, '>') {
        Ok((acc, true, s.skip(2)))
    } else {
        match parse_prop(s) {
            Err(e) => Err(e),
            Ok((p, rest)) => if rest.len() < s.len() {
                parse_props(rest, acc.push(p))
            } else {
                Err(UIxError::ExpectedIdent)
            },
        }
    }
}

/// The number after `i`, wrapping around.
pub open spec fn next_index(i: usize) -> usize {
    if i == usize::MAX {
        0
    } else {
        (i + 1) as usize
    }
}

/// The element at the front of `s`, numbered from `idx`: the element, what
/// follows it, and the next number.
pub open spec fn parse_node(s: Seq<Tok>, idx: usize) -> Result<(NodeV, Seq<Tok>, usize), UIxError>
    decreases s.len(), 0nat,
{
    match parse_attrs(s, no_attrs()) {
        Err(e) => Err(e),
        Ok((attrs, s1)) => if !punct_at(s1, 0, '<') {
            Err(UIxError::ExpectedPunct('<'))
        } else if !(s1.len() > 1 && is_ident_tok(s1[1])) {
            Err(UIxError::ExpectedIdent)
        } else {
            let name = s1[1]->Ident_0;
            match parse_props(s1.skip(2), Seq::empty()) {
                Err(e) => Err(e),
                Ok((props, closed, s2)) => {
                    let node = NodeV {
                        ident: name,
                        prefix: Seq::empty(),
                        root: false,
                        index: idx,
                        is_closed: closed,
                        events: attrs.events,
                        classes: attrs.classes,
                        styles: attrs.styles,
                        props,
                        children: Seq::empty(),
};
                    if closed {
                        Ok((node, s2, next_index(idx)))
                    } else if s2.len() < s.len() {
                        match parse_nodes(s2, name, next_index(idx)) {
                            Err(e) => Err(e),
                            Ok((kids, s3, i3)) => Ok((NodeV { children: kids, ..node }, s3, i3)),
                        }
                    } else {
                        Err(UIxError::ExpectedIdent)
                    }
                },
            }
        },
    }
}

/// The children at the front of `s` of the element named `name`, numbered
/// from `idx`, up to and past the closing tag.
pub open spec fn parse_nodes(s: Seq<Tok>, name: Seq<char>, idx: usize) -> Result<
    (Seq<NodeV>, Seq<Tok>, usize),
    UIxError,
>
    decreases s.len(), 1nat,
{
    if punct_at(s, 0, '<') && punct_at(s, 1, '/') {
        if s.len() > 2 && is_ident_tok(s[2]) {
            if s[2]->Ident_0 == name {
                if punct_at(s, 3, '>') {
                    Ok((Seq::empty(), s.skip(4), idx))
                } else {
                    Err(UIxError::ExpectedPunct('>'))
                }
            } else {
                Err(UIxError::ClosingTagMismatch)
            }
        } else {
            Err(UIxError::ExpectedIdent)
        }
    } else {
        match parse_node(s, idx) {
            Err(e) => Err(e),
            Ok((child, s1, i1)) => if s1.len() < s.len() {
                match parse_nodes(s1, name, i1) {
                    Err(e) => Err(e),
                    Ok((kids, s2, i2)) => Ok((seq![child] + kids, s2, i2)),
                }
            } else {
                Err(UIxError::ExpectedIdent)
            },
        }
    }
}

/// The attributes held in the three lists.
pub open spec fn attrs_of(
    events: Seq<ElementEventAttribute>,
    classes: Seq<ElementClassAttribute>,
    styles: Seq<ElementStyleAttribute>,
) -> AttrsV {
    AttrsV {
        events: events_view(events),
        classes: classes_view(classes),
        styles: styles_view(styles),
    }
}

/// Parses the attributes at the front of the stream.
fn parse_attributes(ts: &mut TokenStream) -> (r: Result<
    (Vec<ElementEventAttribute>, Vec<ElementClassAttribute>, Vec<ElementStyleAttribute>),
    UIxError,
>)
    ensures
        match parse_attrs(old(ts)@, no_attrs()) {
            Ok((a, rest)) => r matches Ok((ev, cl, st)) && attrs_of(ev@, cl@, st@) == a
                && final(ts)@ == rest,
            Err(e) => r matches Err(f) && f == e,
        },
        r is Ok ==> final(ts)@.len() <= old(ts)@.len(),
{
    let mut events: Vec<ElementEventAttribute> = Vec::new();
    let mut classes: Vec<ElementClassAttribute> = Vec::new();
    let mut styles: Vec<ElementStyleAttribute> = Vec::new();
    let ghost s0 = ts@;
    proof {
        assert(attrs_of(events@, classes@, styles@) =~= no_attrs());
    }
    while ts.peek_punct(0, '#')
        invariant
            parse_attrs(s0, no_attrs()) == parse_attrs(
                ts@,
                attrs_of(events@, classes@, styles@),
            ),
            s0 == old(ts)@,
            ts@.len() <= s0.len(),
        decreases ts@.len(),
    {
        let ghost s = ts@;
        let ghost acc = attrs_of(events@, classes@, styles@);
        let ghost (ev0, cl0, st0) = (events@, classes@, styles@);
        match parse_element_attribute(ts) {
            Err(e) => {
                return Err(e);
            },
            Ok(a) => {
                let ghost av = a.view_attr();
                match a {
                    ElementAttribute::Ignored => {},
                    ElementAttribute::Event(e) => {
                        events.push(e);
                        proof {
                            assert(events_view(events@) =~= events_view(ev0).push(e.view_event()));
                        }
                    },
                    ElementAttribute::Class(c) => {
                        classes.push(c);
                        proof {
                            assert(classes_view(classes@) =~= classes_view(cl0).push(c.view_class()));
                        }
                    },
                    ElementAttribute::Style(st) => {
                        styles.push(st);
                        proof {
                            assert(styles_view(styles@) =~= styles_view(st0).push(st.view_style()));
                        }
                    },
                }
                proof {
                    assert(attrs_of(events@, classes@, styles@) =~= add_attr(acc, av));
                }
            },
        }
    }
    Ok((events, classes, styles))
}

/// Parses the props of an opening tag, up to and past its end.
fn parse_tag_props(ts: &mut TokenStream) -> (r: Result<(Vec<ElementProp>, bool), UIxError>)
    ensures
        match parse_props(old(ts)@, Seq::empty()) {
            Ok((p, closed, rest)) => r matches Ok((v, c)) && props_view(v@) == p && c == closed
                && final(ts)@ == rest,
            Err(e) => r matches Err(f) && f == e,
        },
        r is Ok ==> final(ts)@.len() <= old(ts)@.len(),
{
    let mut props: Vec<ElementProp> = Vec::new();
    let ghost s0 = ts@;
    proof {
        assert(props_view(props@) =~= Seq::<PropV>::empty());
    }
    loop
        invariant
            parse_props(s0, Seq::empty()) == parse_props(ts@, props_view(props@)),
            s0 == old(ts)@,
            ts@.len() <= s0.len(),
        decreases ts@.len(),
    {
        if ts.peek_punct(0, '>') {
            let _gt = ts.next();
            return Ok((props, false));
        }
        if ts.peek_punct(0, '/') && ts.peek_punct(1, '>') {
            let _end = ts.take(2);
            return Ok((props, true));
        }
        let ghost s = ts@;
        match parse_element_prop(ts) {
            Err(e) => {
                return Err(e);
            },
            Ok(p) => {
                proof {
                    lemma_parse_prop_shrinks(s);
                }
                let ghost before = props@;
                let ghost pv = p.view_prop();
                props.push(p);
                proof {
                    assert(props_view(props@) =~= props_view(before).push(pv));
                }
            },
        }
    }
}

/// The values of elements after one is pushed.
pub proof fn lemma_nodes_view_push(v: Seq<UIxElement>, e: UIxElement)
    ensures
        nodes_view(v.push(e)) == nodes_view(v).push(e.node()),
{
    assert(v.push(e).drop_last() =~= v);
}

impl UIxElement {
    /// An element of the given type and number, with nothing else yet: not a
    /// root, not closed, without prefix, attributes, props or children.
    pub fn new(ident: String, index: usize) -> (e: UIxElement)
        ensures
            e.node() == (NodeV {
                ident: ident@,
                prefix: Seq::empty(),
                root: false,
                index,
                is_closed: false,
                events: Seq::empty(),
                classes: Seq::empty(),
                styles: Seq::empty(),
                props: Seq::empty(),
                children: Seq::empty(),
            }),
    {
        let e = UIxElement {
            ident,
            prefix: String::new(),
            root: false,
            index,
            is_closed: false,
            events: Vec::new(),
            classes: Vec::new(),
            styles: Vec::new(),
            props: Vec::new(),
            children: Vec::new(),
        };
        proof {
            assert(events_view(e.events@) =~= Seq::<EventV>::empty());
            assert(classes_view(e.classes@) =~= Seq::<Seq<Seq<Tok>>>::empty());
            assert(styles_view(e.styles@) =~= Seq::<Seq<Tok>>::empty());
            assert(props_view(e.props@) =~= Seq::<PropV>::empty());
            assert(nodes_view(e.children@) =~= Seq::<NodeV>::empty());
        }
        e
    }

    /// Parses the element at the front of the stream, numbering it and its
    /// descendants from `idx`; gives the element and the next number.
    pub fn parse(ts: &mut TokenStream, idx: usize) -> (r: Result<(UIxElement, usize), UIxError>)
        ensures
            match parse_node(old(ts)@, idx) {
                Ok((n, rest, i)) => r matches Ok((e, j)) && e.node() == n && j == i
                    && final(ts)@ == rest,
                Err(err) => r matches Err(f) && f == err,
            },
            r is Ok ==> final(ts)@.len() < old(ts)@.len(),
        decreases old(ts)@.len(), 0nat,
    {
        let ghost s = ts@;
        let (events, classes, styles) = match parse_attributes(ts) {
            Err(e) => {
                return Err(e);
            },
            Ok(x) => x,
};
        let ghost s1 = ts@;
        if !ts.peek_punct(0, '<') {
            return Err(UIxError::ExpectedPunct('<'));
        }
        if !ts.peek_ident(1) {
            return Err(UIxError::ExpectedIdent);
        }
        let _lt = ts.next();
        let ident = crate::uix::element::take_ident(ts);
        proof {
            assert(ts@ =~= s1.skip(2));
        }
        let (props, closed) = match parse_tag_props(ts) {
            Err(e) => {
                return Err(e);
            },
            Ok(x) => x,
};
        let next = if idx == usize::MAX { 0 } else { idx + 1 };
        let mut element = UIxElement {
            ident,
            prefix: String::new(),
            root: false,
            index: idx,
            is_closed: closed,
            events,
            classes,
            styles,
            props,
            children: Vec::new(),
};
        proof {
            assert(nodes_view(element.children@) =~= Seq::<NodeV>::empty());
        }
        if closed {
            return Ok((element, next));
        }
        match UIxElement::parse_children(ts, &element.ident, next) {
            Err(e) => Err(e),
            Ok((children, j)) => {
                element.children = children;
                Ok((element, j))
            },
        }
    }

    /// Parses the children at the front of the stream of the element named
    /// `name`, numbering them from `idx`, up to and past the closing tag.
    pub fn parse_children(ts: &mut TokenStream, name: &String, idx: usize) -> (r: Result<
        (Vec<UIxElement>, usize),
        UIxError,
    >)
        ensures
            match parse_nodes(old(ts)@, name@, idx) {
                Ok((kids, rest, i)) => r matches Ok((v, j)) && nodes_view(v@) == kids && j == i
                    && final(ts)@ == rest,
                Err(e) => r matches Err(f) && f == e,
            },
            r is Ok ==> final(ts)@.len() < old(ts)@.len(),
        decreases old(ts)@.len(), 1nat,
    {
        let ghost s0 = ts@;
        let mut children: Vec<UIxElement> = Vec::new();
        let mut i = idx;
        proof {
            assert(nodes_view(children@) + Seq::<NodeV>::empty() =~= Seq::<NodeV>::empty());
            match parse_nodes(s0, name@, idx) {
                Ok((k, r, j)) => {
                    assert(nodes_view(children@) + k =~= k);
                },
                Err(_) => {},
            }
        }
        loop
            invariant
                ts@.len() <= s0.len(),
                s0 == old(ts)@,
                parse_nodes(s0, name@, idx) == match parse_nodes(ts@, name@, i) {
                    Ok((k, rest, j)) => Ok((nodes_view(children@) + k, rest, j)),
                    Err(e) => Err(e),
                },
            decreases ts@.len(),
        {
            if ts.peek_punct(0, '<') && ts.peek_punct(1, '/') {
                if !ts.peek_ident(2) {
                    return Err(UIxError::ExpectedIdent);
                }
                let same = match ts.peek(2) {
                    Some(TokenTree::Ident(w)) => *w == *name,
                    _ => false,
};
                if !same {
                    return Err(UIxError::ClosingTagMismatch);
                }
                if !ts.peek_punct(3, '>') {
                    return Err(UIxError::ExpectedPunct('>'));
                }
                let _close = ts.take(4);
                proof {
                    assert(nodes_view(children@) + Seq::<NodeV>::empty() =~= nodes_view(children@));
                }
                return Ok((children, i));
            }
            let ghost s = ts@;
            match UIxElement::parse(ts, i) {
                Err(e) => {
                    return Err(e);
                },
                Ok((child, j)) => {
                    let ghost done = nodes_view(children@);
                    let ghost before = children@;
                    let ghost cn = child.node();
                    proof {
                        lemma_nodes_view_push(before, child);
                    }
                    children.push(child);
                    i = j;
                    proof {
                        assert(children@ == before.push(child));
                        assert(nodes_view(children@) == done.push(cn));
                        match parse_nodes(ts@, name@, i) {
                            Ok((k, rest, j2)) => {
                                assert(done + (seq![cn] + k) =~= nodes_view(children@) + k);
                            },
                            Err(_) => {},
                        }
                    }
                },
            }
        }
    }
}

/// The style expressions that one class gets.
#[verifier::ext_equal]
pub struct ClassStylesV {
    pub name: Seq<char>,
    pub exprs: Seq<Seq<Tok>>,
}

/// The value of a block: its root elements, and the style expressions of
/// each class, in the order in which the classes first appear.
#[verifier::ext_equal]
pub struct BlockV {
    pub roots: Seq<NodeV>,
    pub styles: Seq<ClassStylesV>,
}

/// The index of the first entry of `styles`, from `k` on, for the class
/// `name`, or the length of `styles` if there is none.
pub open spec fn class_index_from(styles: Seq<ClassStylesV>, name: Seq<char>, k: int) -> int
    decreases styles.len() - k,
{
    if k >= styles.len() {
        styles.len() as int
    } else if styles[k].name == name {
        k
    } else {
        class_index_from(styles, name, k + 1)
    }
}

/// `styles` with `expr` added to the class `name`.
pub open spec fn push_style(styles: Seq<ClassStylesV>, name: Seq<char>, expr: Seq<Tok>) -> Seq<
    ClassStylesV,
> {
    let k = class_index_from(styles, name, 0);
    if 0 <= k < styles.len() {
        styles.update(k, ClassStylesV { name: styles[k].name, exprs: styles[k].exprs.push(expr) })
    } else {
        styles.push(ClassStylesV { name, exprs: seq![expr] })
    }
}

/// `styles` with `expr` added to each of the classes `names`, in order.
pub open spec fn push_style_for(styles: Seq<ClassStylesV>, names: Seq<Seq<char>>, expr: Seq<Tok>) -> Seq<
    ClassStylesV,
>
    decreases names.len(),
{
    if names.len() == 0 {
        styles
    } else {
        push_style(push_style_for(styles, names.drop_last(), expr), names.last(), expr)
    }
}

/// `styles` after a class block: each expression, in order, is added to
/// each of the classes.
pub open spec fn add_class_block(
    styles: Seq<ClassStylesV>,
    names: Seq<Seq<char>>,
    exprs: Seq<Seq<Tok>>,
) -> Seq<ClassStylesV>
    decreases exprs.len(),
{
    if exprs.len() == 0 {
        styles
    } else {
        push_style_for(add_class_block(styles, names, exprs.drop_last()), names, exprs.last())
    }
}

/// The class names at the front of `s` (`.name`, with commas between),
/// after those in `acc`.
pub open spec fn parse_class_names(s: Seq<Tok>, acc: Seq<Seq<char>>) -> Result<
    (Seq<Seq<char>>, Seq<Tok>),
    UIxError,
>
    decreases s.len(),
{
    if punct_at(s, 0, '.') {
        if s.len() > 1 && is_ident_tok(s[1]) {
            parse_class_names(s.skip(2), acc.push(s[1]->Ident_0))
        } else {
            Err(UIxError::ExpectedIdent)
        }
    } else if punct_at(s, 0, ',') {
        parse_class_names(s.skip(1), acc)
    } else {
        Ok((acc, s))
    }
}

/// A class block at the front of `s`: its class names, its style
/// expressions, and what follows it.
pub open spec fn parse_class_block(s: Seq<Tok>) -> Result<
    (Seq<Seq<char>>, Seq<Seq<Tok>>, Seq<Tok>),
    UIxError,
> {
    match parse_class_names(s, Seq::empty()) {
        Err(e) => Err(e),
        Ok((names, s1)) => if s1.len() > 0 && is_group(s1[0], Delimiter::Brace) {
            match split_args(s1[0]->Group_1) {
                None => Err(UIxError::ExpectedExpr),
                Some(exprs) => Ok((names, exprs, s1.skip(1))),
            }
        } else {
            Err(UIxError::ExpectedGroup(Delimiter::Brace))
        },
    }
}

/// The rest of a block, `s`, after what `acc` holds, numbering elements
/// from `idx`: the block, and the next number.
pub open spec fn parse_block_from(s: Seq<Tok>, idx: usize, acc: BlockV) -> Result<
    (BlockV, usize),
    UIxError,
>
    decreases s.len(),
{
    if s.len() == 0 {
        Ok((acc, idx))
    } else if punct_at(s, 0, '.') {
        match parse_class_block(s) {
            Err(e) => Err(e),
            Ok((names, exprs, s1)) => if s1.len() == 0 {
                Err(UIxError::ExpectedPunct('<'))
            } else if s1.len() < s.len() {
                parse_block_from(
                    s1,
                    idx,
                    BlockV { roots: acc.roots, styles: add_class_block(acc.styles, names, exprs) },
                )
            } else {
                Err(UIxError::ExpectedGroup(Delimiter::Brace))
            },
        }
    } else {
        match parse_node(s, idx) {
            Err(e) => Err(e),
            Ok((n, s2, i2)) => if s2.len() < s.len() {
                parse_block_from(
                    s2,
                    i2,
                    BlockV { roots: acc.roots.push(NodeV { root: true, ..n }), styles: acc.styles },
                )
            } else {
                Err(UIxError::ExpectedIdent)
            },
        }
    }
}

/// A whole block, numbering its elements from `idx`.
pub open spec fn parse_block(s: Seq<Tok>, idx: usize) -> Result<(BlockV, usize), UIxError> {
    parse_block_from(s, idx, BlockV { roots: Seq::empty(), styles: Seq::empty() })
}

/// The style expressions that one class gets.
pub struct ClassStyles {
    /// The class.
    pub name: String,
    /// Its style expressions.
    pub exprs: Vec<Vec<TokenTree>>,
}

/// The values of a sequence of class styles.
pub open spec fn class_styles_view(s: Seq<ClassStyles>) -> Seq<ClassStylesV> {
    s.map_values(|c: ClassStyles| ClassStylesV { name: c.name@, exprs: exprs_view(c.exprs@) })
}

/// The values of a sequence of names.
pub open spec fn names_view(s: Seq<String>) -> Seq<Seq<char>> {
    s.map_values(|n: String| n@)
}

/// The first entry for `name` from `j` on is at `k` when the entries in
/// between are for other classes and `k` is for `name` or the end.
proof fn lemma_class_index_from(styles: Seq<ClassStylesV>, name: Seq<char>, k: int, j: int)
    requires
        0 <= j <= k <= styles.len(),
        forall|m: int| j <= m < k ==> #[trigger] styles[m].name != name,
        k == styles.len() || styles[k].name == name,
    ensures
        class_index_from(styles, name, j) == k,
    decreases k - j,
{
    if j < k {
        lemma_class_index_from(styles, name, k, j + 1);
    }
}

/// Adds `expr` to the class `name`.
fn push_class_style(styles: &mut Vec<ClassStyles>, name: &String, expr: Vec<TokenTree>)
    ensures
        class_styles_view(final(styles)@) == push_style(
            class_styles_view(old(styles)@),
            name@,
            toks_view(expr@),
        ),
{
    let ghost sv = class_styles_view(styles@);
    let mut k: usize = 0;
    while k < styles.len() && !(styles[k].name == *name)
        invariant
            k <= styles.len(),
            sv == class_styles_view(styles@),
            styles@ == old(styles)@,
            forall|j: int| 0 <= j < k ==> #[trigger] sv[j].name != name@,
        decreases styles.len() - k,
    {
        k = k + 1;
    }
    proof {
        lemma_class_index_from(sv, name@, k as int, 0);
    }
    if k < styles.len() {
        let mut entry = styles.remove(k);
        let ghost ev = exprs_view(entry.exprs@);
        let ghost xv = toks_view(expr@);
        entry.exprs.push(expr);
        proof {
            assert(exprs_view(entry.exprs@) =~= ev.push(xv));
        }
        styles.insert(k, entry);
        proof {
            assert(class_styles_view(styles@) =~= push_style(sv, name@, xv));
        }
    } else {
        let mut exprs: Vec<Vec<TokenTree>> = Vec::new();
        let ghost xv = toks_view(expr@);
        exprs.push(expr);
        let entry = ClassStyles { name: name.clone(), exprs };
        proof {
            assert(exprs_view(entry.exprs@) =~= seq![xv]);
        }
        styles.push(entry);
        proof {
            assert(class_styles_view(styles@) =~= push_style(sv, name@, xv));
        }
    }
}

/// Adds the expressions of a class block to each of its classes.
pub fn add_class_styles(styles: &mut Vec<ClassStyles>, names: &Vec<String>, exprs: &Vec<Vec<TokenTree>>)
    ensures
        class_styles_view(final(styles)@) == add_class_block(
            class_styles_view(old(styles)@),
            names_view(names@),
            exprs_view(exprs@),
        ),
{
    let ghost init = class_styles_view(styles@);
    let ghost nv = names_view(names@);
    let ghost xv = exprs_view(exprs@);
    let mut j: usize = 0;
    proof {
        assert(xv.take(0) =~= Seq::<Seq<Tok>>::empty());
    }
    while j < exprs.len()
        invariant
            j <= exprs.len(),
            init == class_styles_view(old(styles)@),
            nv == names_view(names@),
            xv == exprs_view(exprs@),
            class_styles_view(styles@) == add_class_block(init, nv, xv.take(j as int)),
        decreases exprs.len() - j,
    {
        let ghost before = class_styles_view(styles@);
        let mut i: usize = 0;
        proof {
            assert(nv.take(0) =~= Seq::<Seq<char>>::empty());
        }
        while i < names.len()
            invariant
                i <= names.len(),
                j < exprs.len(),
                nv == names_view(names@),
                xv == exprs_view(exprs@),
                class_styles_view(styles@) == push_style_for(before, nv.take(i as int), xv[j as int]),
            decreases names.len() - i,
        {
            let copy = duplicate_tokens(&exprs[j]);
            push_class_style(styles, &names[i], copy);
            proof {
                assert(nv.take(i + 1).drop_last() =~= nv.take(i as int));
            }
            i = i + 1;
        }
        proof {
            assert(nv.take(i as int) =~= nv);
            assert(xv.take(j + 1).drop_last() =~= xv.take(j as int));
        }
        j = j + 1;
    }
    proof {
        assert(xv.take(j as int) =~= xv);
    }
}

/// Parses a class block at the front of the stream.
pub fn parse_class_styles(ts: &mut TokenStream) -> (r: Result<(Vec<String>, Vec<Vec<TokenTree>>), UIxError>)
    ensures
        match parse_class_block(old(ts)@) {
            Ok((names, exprs, rest)) => r matches Ok((n, x)) && names_view(n@) == names
                && exprs_view(x@) == exprs && final(ts)@ == rest,
            Err(e) => r matches Err(f) && f == e,
        },
        r is Ok ==> final(ts)@.len() < old(ts)@.len(),
{
    let mut names: Vec<String> = Vec::new();
    let ghost s0 = ts@;
    proof {
        assert(names_view(names@) =~= Seq::<Seq<char>>::empty());
    }
    loop
        invariant
            parse_class_names(s0, Seq::empty()) == parse_class_names(ts@, names_view(names@)),
            s0 == old(ts)@,
            ts@.len() <= s0.len(),
        ensures
            parse_class_names(s0, Seq::empty()) == parse_class_names(ts@, names_view(names@)),
            ts@.len() <= s0.len(),
            !punct_at(ts@, 0, '.'),
            !punct_at(ts@, 0, ','),
        decreases ts@.len(),
    {
        let ghost s = ts@;
        if ts.peek_punct(0, '.') {
            if !ts.peek_ident(1) {
                return Err(UIxError::ExpectedIdent);
            }
            let _dot = ts.next();
            let ghost before = names_view(names@);
            let name = crate::uix::element::take_ident(ts);
            let ghost nv = name@;
            names.push(name);
            proof {
                assert(names_view(names@) =~= before.push(nv));
                assert(ts@ =~= s.skip(2));
            }
        } else if ts.peek_punct(0, ',') {
            let _comma = ts.next();
        } else {
            break;
        }
    }
    if !(ts.len() > 0 && ts.peek_group(0, Delimiter::Brace)) {
        return Err(UIxError::ExpectedGroup(Delimiter::Brace));
    }
    let group = ts.next();
    let inner = match group {
        TokenTree::Group(_, inner) => inner,
        _ => Vec::new(),
};
    let ghost iv = toks_view(inner@);
    match split_arguments(inner) {
        None => Err(UIxError::ExpectedExpr),
        Some(exprs) => {
            proof {
                let a = split_args(iv).unwrap();
                assert(exprs_view(exprs@) =~= a);
            }
            Ok((names, exprs))
        },
    }
}

/// A block of UIx markup: its root elements, and the style expressions of
/// the classes its class blocks define.
pub struct UIxBlock {
    roots: Vec<UIxElement>,
    styles: Vec<ClassStyles>,
}

impl UIxBlock {
    /// The value of the block.
    pub closed spec fn view_block(&self) -> BlockV {
        BlockV { roots: nodes_view(self.roots@), styles: class_styles_view(self.styles@) }
    }

    /// An empty block.
    pub fn new() -> (r: UIxBlock)
        ensures
            r.view_block() == (BlockV { roots: Seq::empty(), styles: Seq::empty() }),
    {
        let r = UIxBlock { roots: Vec::new(), styles: Vec::new() };
        proof {
            assert(r.view_block() =~= BlockV { roots: Seq::empty(), styles: Seq::empty() });
        }
        r
    }

    /// The root elements.
    pub fn roots(&self) -> (r: &Vec<UIxElement>)
        ensures
            nodes_view(r@) == self.view_block().roots,
    {
        &self.roots
    }

    /// The style expressions of each class.
    pub fn styles(&self) -> (r: &Vec<ClassStyles>)
        ensures
            class_styles_view(r@) == self.view_block().styles,
    {
        &self.styles
    }

    /// Parses a whole block of markup, numbering its elements from `idx`;
    /// gives the block and the next number.
    pub fn parse(tokens: Vec<TokenTree>, idx: usize) -> (r: Result<(UIxBlock, usize), UIxError>)
        ensures
            match parse_block(toks_view(tokens@), idx) {
                Ok((b, i)) => r matches Ok((x, j)) && x.view_block() == b && j == i,
                Err(e) => r matches Err(f) && f == e,
            },
    {
        let mut ts = TokenStream::new(tokens);
        let mut block = UIxBlock::new();
        let mut i = idx;
        let ghost s0 = ts@;
        while !ts.is_empty()
            invariant
                s0 == toks_view(tokens@),
                parse_block(s0, idx) == parse_block_from(ts@, i, block.view_block()),
            decreases ts@.len(),
        {
            let ghost s = ts@;
            let ghost acc = block.view_block();
            if ts.peek_punct(0, '.') {
                match parse_class_styles(&mut ts) {
                    Err(e) => {
                        return Err(e);
                    },
                    Ok((names, exprs)) => {
                        if ts.is_empty() {
                            return Err(UIxError::ExpectedPunct('<'));
                        }
                        add_class_styles(&mut block.styles, &names, &exprs);
                        proof {
                            assert(block.view_block() =~= BlockV {
                                roots: acc.roots,
                                styles: add_class_block(acc.styles, names_view(names@), exprs_view(exprs@)),
                            });
                        }
                        continue;
                    },
                }
            }
            let ghost styles1 = class_styles_view(block.styles@);
            match UIxElement::parse(&mut ts, i) {
                Err(e) => {
                    return Err(e);
                },
                Ok((element, j)) => {
                    let mut element = element;
                    element.root = true;
                    let ghost before = block.roots@;
                    let ghost en = element.node();
                    proof {
                        lemma_nodes_view_push(before, element);
                    }
                    block.roots.push(element);
                    i = j;
                    proof {
                        assert(block.roots@ == before.push(element));
                        assert(block.view_block() =~= BlockV {
                            roots: acc.roots.push(en),
                            styles: styles1,
                        });
                    }
                },
            }
        }
        Ok((block, i))
    }
}

} // verus!
