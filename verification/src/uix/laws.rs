//! What the UIx parser promises of markup written the plain way: an element
//! written out as markup parses back to itself, with its elements numbered
//! in the order in which they open.
use vstd::prelude::*;

use crate::uix::element::{
    AttrV, EventV, MetaV, PropV, is_meta_segment, meta_path_end, parse_attr,
    parse_meta, parse_prop,
};
use crate::uix::emit::{alone, grp, word};
use crate::uix::markup::{
    AttrsV, BlockV, ClassStylesV, NodeV, add_attr, add_class_block, no_attrs, parse_attrs,
    next_index, parse_block, parse_block_from, parse_class_block, parse_class_names, parse_node,
    parse_nodes, parse_props,
};
use crate::uix::syntax::{
    comma_from, is_ident_tok, is_keyword, is_number_literal, is_path_segment, lemma_comma_scan_plain,
    split_args, value_len,
};
use crate::uix::token::{Delimiter, Tok, is_group, is_punct, path_sep_at, punct_at};

verus! {

/// Arguments written out with a comma between each two.
pub open spec fn join_args(xs: Seq<Seq<Tok>>) -> Seq<Tok>
    decreases xs.len(),
{
    if xs.len() == 0 {
        Seq::empty()
    } else if xs.len() == 1 {
        xs[0]
    } else {
        xs[0] + seq![alone(',')] + join_args(xs.skip(1))
    }
}

/// An argument that can be written in a list: not empty, and without a
/// comma, a `|` or a `<` outside its groups (so that no closure's
/// parameters or turbofish's generic arguments hold a comma).
pub open spec fn plain_arg(x: Seq<Tok>) -> bool {
    &&& x.len() > 0
    &&& forall|k: int|
        0 <= k < x.len() ==> !is_punct(#[trigger] x[k], ',') && !is_punct(x[k], '|') && !is_punct(
            x[k],
            '<',
        )
}

/// Arguments that can be written in a list.
pub open spec fn plain_args(xs: Seq<Seq<Tok>>) -> bool {
    forall|i: int| 0 <= i < xs.len() ==> plain_arg(#[trigger] xs[i])
}

/// A list of plain arguments, written out, splits back into them.
pub proof fn lemma_split_join(xs: Seq<Seq<Tok>>)
    requires
        plain_args(xs),
    ensures
        split_args(join_args(xs)) == Some(xs),
    decreases xs.len(),
{
    if xs.len() == 0 {
    } else {
        let x = xs[0];
        assert(plain_arg(xs[0]));
        let s = join_args(xs);
        if xs.len() == 1 {
            assert(s == x);
            lemma_comma_scan_plain(s, 0, 0, s.len() as int);
            assert(split_args(s) == Some(seq![s]));
            assert(seq![s] =~= xs);
        } else {
            let rest = xs.skip(1);
            assert(plain_args(rest)) by {
                assert forall|i: int| 0 <= i < rest.len() implies plain_arg(#[trigger] rest[i]) by {
                    assert(rest[i] == xs[i + 1]);
                }
            }
            lemma_split_join(rest);
            assert(s == x + seq![alone(',')] + join_args(rest));
            assert(s[x.len() as int] == alone(','));
            assert forall|j: int| 0 <= j < x.len() implies !is_punct(#[trigger] s[j], ',') && !is_punct(
                s[j],
                '|',
            ) && !is_punct(s[j], '<') by {
                assert(s[j] == x[j]);
            }
            lemma_comma_scan_plain(s, 0, 0, x.len() as int);
            let n = comma_from(s, 0);
            assert(n == x.len());
            assert(s.take(n) =~= x);
            assert(s.skip(n + 1) =~= join_args(rest));
            assert(seq![x] + rest =~= xs);
        }
    }
}

/// The words of the attributes the markup uses are identifiers, distinct
/// from each other and from those it ignores.
pub proof fn lemma_attr_words()
    ensures
        !is_keyword("on"@),
        !is_keyword("style"@),
        !is_keyword("class"@),
        "on"@ != "unsafe"@ && "style"@ != "unsafe"@ && "class"@ != "unsafe"@,
        "on"@ != "uuid"@ && "on"@ != "when"@ && "on"@ != "each"@ && "on"@ != "doc"@,
        "style"@ != "uuid"@ && "style"@ != "when"@ && "style"@ != "each"@ && "style"@ != "doc"@,
        "class"@ != "uuid"@ && "class"@ != "when"@ && "class"@ != "each"@ && "class"@ != "doc"@,
        "on"@ != "class"@ && "style"@ != "class"@ && "on"@ != "style"@,
{
    reveal_strlit("_");
    assert("_"@.len() == 1);
    assert("_"@[0] == '_');
    reveal_strlit("abstract");
    assert("abstract"@.len() == 8);
    assert("abstract"@[0] == 'a');
    assert("abstract"@[1] == 'b');
    reveal_strlit("as");
    assert("as"@.len() == 2);
    assert("as"@[0] == 'a');
    assert("as"@[1] == 's');
    reveal_strlit("async");
    assert("async"@.len() == 5);
    assert("async"@[0] == 'a');
    assert("async"@[1] == 's');
    reveal_strlit("await");
    assert("await"@.len() == 5);
    assert("await"@[0] == 'a');
    assert("await"@[1] == 'w');
    reveal_strlit("become");
    assert("become"@.len() == 6);
    assert("become"@[0] == 'b');
    assert("become"@[1] == 'e');
    reveal_strlit("box");
    assert("box"@.len() == 3);
    assert("box"@[0] == 'b');
    assert("box"@[1] == 'o');
    reveal_strlit("break");
    assert("break"@.len() == 5);
    assert("break"@[0] == 'b');
    assert("break"@[1] == 'r');
    reveal_strlit("const");
    assert("const"@.len() == 5);
    assert("const"@[0] == 'c');
    assert("const"@[1] == 'o');
    reveal_strlit("continue");
    assert("continue"@.len() == 8);
    assert("continue"@[0] == 'c');
    assert("continue"@[1] == 'o');
    reveal_strlit("crate");
    assert("crate"@.len() == 5);
    assert("crate"@[0] == 'c');
    assert("crate"@[1] == 'r');
    reveal_strlit("do");
    assert("do"@.len() == 2);
    assert("do"@[0] == 'd');
    assert("do"@[1] == 'o');
    reveal_strlit("dyn");
    assert("dyn"@.len() == 3);
    assert("dyn"@[0] == 'd');
    assert("dyn"@[1] == 'y');
    reveal_strlit("else");
    assert("else"@.len() == 4);
    assert("else"@[0] == 'e');
    assert("else"@[1] == 'l');
    reveal_strlit("enum");
    assert("enum"@.len() == 4);
    assert("enum"@[0] == 'e');
    assert("enum"@[1] == 'n');
    reveal_strlit("extern");
    assert("extern"@.len() == 6);
    assert("extern"@[0] == 'e');
    assert("extern"@[1] == 'x');
    reveal_strlit("false");
    assert("false"@.len() == 5);
    assert("false"@[0] == 'f');
    assert("false"@[1] == 'a');
    reveal_strlit("final");
    assert("final"@.len() == 5);
    assert("final"@[0] == 'f');
    assert("final"@[1] == 'i');
    reveal_strlit("fn");
    assert("fn"@.len() == 2);
    assert("fn"@[0] == 'f');
    assert("fn"@[1] == 'n');
    reveal_strlit("for");
    assert("for"@.len() == 3);
    assert("for"@[0] == 'f');
    assert("for"@[1] == 'o');
    reveal_strlit("if");
    assert("if"@.len() == 2);
    assert("if"@[0] == 'i');
    assert("if"@[1] == 'f');
    reveal_strlit("impl");
    assert("impl"@.len() == 4);
    assert("impl"@[0] == 'i');
    assert("impl"@[1] == 'm');
    reveal_strlit("in");
    assert("in"@.len() == 2);
    assert("in"@[0] == 'i');
    assert("in"@[1] == 'n');
    reveal_strlit("let");
    assert("let"@.len() == 3);
    assert("let"@[0] == 'l');
    assert("let"@[1] == 'e');
    reveal_strlit("loop");
    assert("loop"@.len() == 4);
    assert("loop"@[0] == 'l');
    assert("loop"@[1] == 'o');
    reveal_strlit("macro");
    assert("macro"@.len() == 5);
    assert("macro"@[0] == 'm');
    assert("macro"@[1] == 'a');
    reveal_strlit("match");
    assert("match"@.len() == 5);
    assert("match"@[0] == 'm');
    assert("match"@[1] == 'a');
    reveal_strlit("mod");
    assert("mod"@.len() == 3);
    assert("mod"@[0] == 'm');
    assert("mod"@[1] == 'o');
    reveal_strlit("move");
    assert("move"@.len() == 4);
    assert("move"@[0] == 'm');
    assert("move"@[1] == 'o');
    reveal_strlit("mut");
    assert("mut"@.len() == 3);
    assert("mut"@[0] == 'm');
    assert("mut"@[1] == 'u');
    reveal_strlit("override");
    assert("override"@.len() == 8);
    assert("override"@[0] == 'o');
    assert("override"@[1] == 'v');
    reveal_strlit("priv");
    assert("priv"@.len() == 4);
    assert("priv"@[0] == 'p');
    assert("priv"@[1] == 'r');
    reveal_strlit("pub");
    assert("pub"@.len() == 3);
    assert("pub"@[0] == 'p');
    assert("pub"@[1] == 'u');
    reveal_strlit("ref");
    assert("ref"@.len() == 3);
    assert("ref"@[0] == 'r');
    assert("ref"@[1] == 'e');
    reveal_strlit("return");
    assert("return"@.len() == 6);
    assert("return"@[0] == 'r');
    assert("return"@[1] == 'e');
    reveal_strlit("Self");
    assert("Self"@.len() == 4);
    assert("Self"@[0] == 'S');
    assert("Self"@[1] == 'e');
    reveal_strlit("self");
    assert("self"@.len() == 4);
    assert("self"@[0] == 's');
    assert("self"@[1] == 'e');
    reveal_strlit("static");
    assert("static"@.len() == 6);
    assert("static"@[0] == 's');
    assert("static"@[1] == 't');
    reveal_strlit("struct");
    assert("struct"@.len() == 6);
    assert("struct"@[0] == 's');
    assert("struct"@[1] == 't');
    reveal_strlit("super");
    assert("super"@.len() == 5);
    assert("super"@[0] == 's');
    assert("super"@[1] == 'u');
    reveal_strlit("trait");
    assert("trait"@.len() == 5);
    assert("trait"@[0] == 't');
    assert("trait"@[1] == 'r');
    reveal_strlit("true");
    assert("true"@.len() == 4);
    assert("true"@[0] == 't');
    assert("true"@[1] == 'r');
    reveal_strlit("try");
    assert("try"@.len() == 3);
    assert("try"@[0] == 't');
    assert("try"@[1] == 'r');
    reveal_strlit("type");
    assert("type"@.len() == 4);
    assert("type"@[0] == 't');
    assert("type"@[1] == 'y');
    reveal_strlit("typeof");
    assert("typeof"@.len() == 6);
    assert("typeof"@[0] == 't');
    assert("typeof"@[1] == 'y');
    reveal_strlit("unsafe");
    assert("unsafe"@.len() == 6);
    assert("unsafe"@[0] == 'u');
    assert("unsafe"@[1] == 'n');
    reveal_strlit("unsized");
    assert("unsized"@.len() == 7);
    assert("unsized"@[0] == 'u');
    assert("unsized"@[1] == 'n');
    reveal_strlit("use");
    assert("use"@.len() == 3);
    assert("use"@[0] == 'u');
    assert("use"@[1] == 's');
    reveal_strlit("virtual");
    assert("virtual"@.len() == 7);
    assert("virtual"@[0] == 'v');
    assert("virtual"@[1] == 'i');
    reveal_strlit("where");
    assert("where"@.len() == 5);
    assert("where"@[0] == 'w');
    assert("where"@[1] == 'h');
    reveal_strlit("while");
    assert("while"@.len() == 5);
    assert("while"@[0] == 'w');
    assert("while"@[1] == 'h');
    reveal_strlit("yield");
    assert("yield"@.len() == 5);
    assert("yield"@[0] == 'y');
    assert("yield"@[1] == 'i');
    reveal_strlit("on");
    assert("on"@.len() == 2);
    assert("on"@[0] == 'o');
    assert("on"@[1] == 'n');
    reveal_strlit("style");
    assert("style"@.len() == 5);
    assert("style"@[0] == 's');
    assert("style"@[1] == 't');
    reveal_strlit("class");
    assert("class"@.len() == 5);
    assert("class"@[0] == 'c');
    assert("class"@[1] == 'l');
    reveal_strlit("uuid");
    assert("uuid"@.len() == 4);
    assert("uuid"@[0] == 'u');
    assert("uuid"@[1] == 'u');
    reveal_strlit("when");
    assert("when"@.len() == 4);
    assert("when"@[0] == 'w');
    assert("when"@[1] == 'h');
    reveal_strlit("each");
    assert("each"@.len() == 4);
    assert("each"@[0] == 'e');
    assert("each"@[1] == 'a');
    reveal_strlit("doc");
    assert("doc"@.len() == 3);
    assert("doc"@[0] == 'd');
    assert("doc"@[1] == 'o');
}

/// An attribute written out: `#[name(args)]`.
pub open spec fn attr_source(name: Seq<char>, args: Seq<Seq<Tok>>) -> Seq<Tok> {
    seq![
        alone('#'),
        grp(
            Delimiter::Bracket,
            seq![word(name), grp(Delimiter::Parenthesis, join_args(args))],
        ),
    ]
}

/// The meta `name(body)` of an attribute whose name is an identifier.
pub proof fn lemma_parse_meta_list(name: Seq<char>, body: Seq<Tok>)
    requires
        !is_keyword(name),
        name != "unsafe"@,
    ensures
        parse_meta(seq![word(name), grp(Delimiter::Parenthesis, body)]) == Ok::<
            (Option<Seq<char>>, MetaV),
            crate::uix::syntax::UIxError,
        >((Some(name), MetaV::List(body))),
{
    let c = seq![word(name), grp(Delimiter::Parenthesis, body)];
    assert(!path_sep_at(c, 0));
    assert(is_meta_segment(c[0]));
    assert(!path_sep_at(c, 1));
    assert(meta_path_end(c, 0, true) == Ok::<int, crate::uix::syntax::UIxError>(1));
}

/// An event attribute written out: `#[on(kind, handlers..)]`.
pub open spec fn event_source(e: EventV) -> Seq<Tok> {
    attr_source("on"@, seq![e.kind] + e.handlers)
}

/// An event attribute that can be written out.
pub open spec fn plain_event(e: EventV) -> bool {
    plain_args(seq![e.kind] + e.handlers)
}

/// A written-out event attribute parses back to itself.
pub proof fn lemma_parse_event(e: EventV, rest: Seq<Tok>)
    requires
        plain_event(e),
    ensures
        parse_attr(event_source(e) + rest) == Ok::<(AttrV, Seq<Tok>), crate::uix::syntax::UIxError>(
            (AttrV::Event(e), rest),
        ),
{
    lemma_attr_words();
    let args = seq![e.kind] + e.handlers;
    lemma_split_join(args);
    lemma_parse_meta_list("on"@, join_args(args));
    let s = event_source(e) + rest;
    assert(s[1] == event_source(e)[1]);
    assert(s.skip(2) =~= rest);
    assert(args[0] == e.kind);
    assert(args.skip(1) =~= e.handlers);
}

/// An event attribute written the short way: `#[on:name(handlers..)]`.
pub open spec fn named_event_source(name: Seq<char>, handlers: Seq<Seq<Tok>>) -> Seq<Tok> {
    seq![
        alone('#'),
        grp(
            Delimiter::Bracket,
            seq![
                word("on"@),
                alone(':'),
                word(name),
                grp(Delimiter::Parenthesis, join_args(handlers)),
            ],
        ),
    ]
}

/// An event attribute written the short way parses to the event named
/// after the colon, with its handlers in order.
pub proof fn lemma_parse_named_event(name: Seq<char>, handlers: Seq<Seq<Tok>>, rest: Seq<Tok>)
    requires
        !is_keyword(name),
        plain_args(handlers),
    ensures
        parse_attr(named_event_source(name, handlers) + rest) == Ok::<
            (AttrV, Seq<Tok>),
            crate::uix::syntax::UIxError,
        >((AttrV::Event(EventV { kind: seq![word(name)], handlers }), rest)),
{
    lemma_attr_words();
    lemma_split_join(handlers);
    let c = seq![
        word("on"@),
        alone(':'),
        word(name),
        grp(Delimiter::Parenthesis, join_args(handlers)),
    ];
    assert(!path_sep_at(c, 0));
    assert(is_meta_segment(c[0]));
    assert(!path_sep_at(c, 1));
    assert(meta_path_end(c, 0, true) == Ok::<int, crate::uix::syntax::UIxError>(1));
    assert(parse_meta(c) == Ok::<(Option<Seq<char>>, MetaV), crate::uix::syntax::UIxError>(
        (Some("on"@), MetaV::Named(name, join_args(handlers))),
    ));
    let s = named_event_source(name, handlers) + rest;
    assert(s[1] == grp(Delimiter::Bracket, c));
    assert(s.skip(2) =~= rest);
}

/// A style attribute with several expressions written out:
/// `#[style(x0, x1, ..)]`.
pub open spec fn style_list_source(xs: Seq<Seq<Tok>>) -> Seq<Tok> {
    attr_source("style"@, xs)
}

/// A written-out style attribute keeps every one of its expressions, in
/// order, with the commas between them.
pub proof fn lemma_parse_style_list(xs: Seq<Seq<Tok>>, rest: Seq<Tok>)
    requires
        plain_args(xs),
        xs.len() > 0,
    ensures
        parse_attr(style_list_source(xs) + rest) == Ok::<
            (AttrV, Seq<Tok>),
            crate::uix::syntax::UIxError,
        >((AttrV::Style(join_args(xs)), rest)),
{
    lemma_attr_words();
    lemma_split_join(xs);
    lemma_parse_meta_list("style"@, join_args(xs));
    let s = style_list_source(xs) + rest;
    assert(s[1] == style_list_source(xs)[1]);
    assert(s.skip(2) =~= rest);
}

/// A style attribute written out: `#[style(expr)]`.
pub open spec fn style_source(x: Seq<Tok>) -> Seq<Tok> {
    attr_source("style"@, seq![x])
}

/// A written-out style attribute parses back to itself.
pub proof fn lemma_parse_style(x: Seq<Tok>, rest: Seq<Tok>)
    requires
        plain_arg(x),
    ensures
        parse_attr(style_source(x) + rest) == Ok::<(AttrV, Seq<Tok>), crate::uix::syntax::UIxError>(
            (AttrV::Style(x), rest),
        ),
{
    lemma_attr_words();
    let args = seq![x];
    assert(plain_args(args));
    lemma_split_join(args);
    lemma_parse_meta_list("style"@, join_args(args));
    let s = style_source(x) + rest;
    assert(s[1] == style_source(x)[1]);
    assert(s.skip(2) =~= rest);
}

/// A class attribute written out: `#[class(exprs..)]`.
pub open spec fn class_source(xs: Seq<Seq<Tok>>) -> Seq<Tok> {
    attr_source("class"@, xs)
}

/// A written-out class attribute parses back to itself.
pub proof fn lemma_parse_class(xs: Seq<Seq<Tok>>, rest: Seq<Tok>)
    requires
        plain_args(xs),
    ensures
        parse_attr(class_source(xs) + rest) == Ok::<(AttrV, Seq<Tok>), crate::uix::syntax::UIxError>(
            (AttrV::Class(xs), rest),
        ),
{
    lemma_attr_words();
    lemma_split_join(xs);
    lemma_parse_meta_list("class"@, join_args(xs));
    let s = class_source(xs) + rest;
    assert(s[1] == class_source(xs)[1]);
    assert(s.skip(2) =~= rest);
}

/// Event attributes written out one after another.
pub open spec fn events_source(es: Seq<EventV>) -> Seq<Tok>
    decreases es.len(),
{
    if es.len() == 0 {
        Seq::empty()
    } else {
        event_source(es[0]) + events_source(es.skip(1))
    }
}

/// Style attributes written out one after another.
pub open spec fn styles_source(xs: Seq<Seq<Tok>>) -> Seq<Tok>
    decreases xs.len(),
{
    if xs.len() == 0 {
        Seq::empty()
    } else {
        style_source(xs[0]) + styles_source(xs.skip(1))
    }
}

/// Class attributes written out one after another.
pub open spec fn classes_source(cs: Seq<Seq<Seq<Tok>>>) -> Seq<Tok>
    decreases cs.len(),
{
    if cs.len() == 0 {
        Seq::empty()
    } else {
        class_source(cs[0]) + classes_source(cs.skip(1))
    }
}

/// Written-out event attributes are gathered in order.
pub proof fn lemma_parse_events(es: Seq<EventV>, rest: Seq<Tok>, acc: AttrsV)
    requires
        forall|i: int| 0 <= i < es.len() ==> plain_event(#[trigger] es[i]),
    ensures
        parse_attrs(events_source(es) + rest, acc) == parse_attrs(
            rest,
            AttrsV { events: acc.events + es, ..acc },
        ),
    decreases es.len(),
{
    if es.len() == 0 {
        assert(events_source(es) + rest =~= rest);
        assert(AttrsV { events: acc.events + es, ..acc } =~= acc);
    } else {
        let more = events_source(es.skip(1)) + rest;
        let s = events_source(es) + rest;
        assert(s =~= event_source(es[0]) + more);
        lemma_parse_event(es[0], more);
        assert(punct_at(s, 0, '#'));
        let acc1 = add_attr(acc, AttrV::Event(es[0]));
        lemma_parse_events(es.skip(1), rest, acc1);
        assert(acc1.events + es.skip(1) =~= acc.events + es);
        assert(AttrsV { events: acc1.events + es.skip(1), ..acc1 } =~= AttrsV {
            events: acc.events + es,
            ..acc
        });
    }
}

/// Written-out style attributes are gathered in order.
pub proof fn lemma_parse_styles(xs: Seq<Seq<Tok>>, rest: Seq<Tok>, acc: AttrsV)
    requires
        forall|i: int| 0 <= i < xs.len() ==> plain_arg(#[trigger] xs[i]),
    ensures
        parse_attrs(styles_source(xs) + rest, acc) == parse_attrs(
            rest,
            AttrsV { styles: acc.styles + xs, ..acc },
        ),
    decreases xs.len(),
{
    if xs.len() == 0 {
        assert(styles_source(xs) + rest =~= rest);
        assert(AttrsV { styles: acc.styles + xs, ..acc } =~= acc);
    } else {
        let more = styles_source(xs.skip(1)) + rest;
        let s = styles_source(xs) + rest;
        assert(s =~= style_source(xs[0]) + more);
        lemma_parse_style(xs[0], more);
        assert(punct_at(s, 0, '#'));
        let acc1 = add_attr(acc, AttrV::Style(xs[0]));
        lemma_parse_styles(xs.skip(1), rest, acc1);
        assert(acc1.styles + xs.skip(1) =~= acc.styles + xs);
        assert(AttrsV { styles: acc1.styles + xs.skip(1), ..acc1 } =~= AttrsV {
            styles: acc.styles + xs,
            ..acc
        });
    }
}

/// Written-out class attributes are gathered in order.
pub proof fn lemma_parse_classes(cs: Seq<Seq<Seq<Tok>>>, rest: Seq<Tok>, acc: AttrsV)
    requires
        forall|i: int| 0 <= i < cs.len() ==> plain_args(#[trigger] cs[i]),
    ensures
        parse_attrs(classes_source(cs) + rest, acc) == parse_attrs(
            rest,
            AttrsV { classes: acc.classes + cs, ..acc },
        ),
    decreases cs.len(),
{
    if cs.len() == 0 {
        assert(classes_source(cs) + rest =~= rest);
        assert(AttrsV { classes: acc.classes + cs, ..acc } =~= acc);
    } else {
        let more = classes_source(cs.skip(1)) + rest;
        let s = classes_source(cs) + rest;
        assert(s =~= class_source(cs[0]) + more);
        lemma_parse_class(cs[0], more);
        assert(punct_at(s, 0, '#'));
        let acc1 = add_attr(acc, AttrV::Class(cs[0]));
        lemma_parse_classes(cs.skip(1), rest, acc1);
        assert(acc1.classes + cs.skip(1) =~= acc.classes + cs);
        assert(AttrsV { classes: acc1.classes + cs.skip(1), ..acc1 } =~= AttrsV {
            classes: acc.classes + cs,
            ..acc
        });
    }
}

/// A prop written out: `key`, or `key=value`.
pub open spec fn prop_source(p: PropV) -> Seq<Tok> {
    seq![word(p.key)] + match p.value {
        Some(v) => seq![alone('=')] + v,
        None => Seq::empty(),
    }
}

/// Props written out one after another.
pub open spec fn props_source(ps: Seq<PropV>) -> Seq<Tok>
    decreases ps.len(),
{
    if ps.len() == 0 {
        Seq::empty()
    } else {
        prop_source(ps[0]) + props_source(ps.skip(1))
    }
}

/// A prop value written the plain way: a literal, a negative number, a
/// delimited group, or a single identifier.
pub open spec fn plain_value(v: Seq<Tok>) -> bool {
    ||| v.len() == 1 && (v[0] is Literal || is_group(v[0], Delimiter::Brace) || is_group(
        v[0],
        Delimiter::Bracket,
    ) || is_group(v[0], Delimiter::Parenthesis) || is_path_segment(v[0]) || (v[0] matches Tok::Ident(
        w,
    ) && (w == "true"@ || w == "false"@)))
    ||| v.len() == 2 && is_punct(v[0], '-') && is_number_literal(v[1])
}

/// A prop that can be written out.
pub open spec fn plain_prop(p: PropV) -> bool {
    &&& !is_keyword(p.key)
    &&& p.value matches Some(v) ==> plain_value(v)
}

/// What may follow a prop: another prop's key, or the end of the tag.
pub open spec fn after_prop(s: Seq<Tok>) -> bool {
    s.len() > 0 && (s[0] is Ident || punct_at(s, 0, '>') || punct_at(s, 0, '/'))
}

/// A written-out prop parses back to itself.
pub proof fn lemma_parse_prop_source(p: PropV, rest: Seq<Tok>)
    requires
        plain_prop(p),
        after_prop(rest),
    ensures
        parse_prop(prop_source(p) + rest) == Ok::<(PropV, Seq<Tok>), crate::uix::syntax::UIxError>(
            (p, rest),
        ),
{
    let s = prop_source(p) + rest;
    assert(s[0] == word(p.key));
    match p.value {
        Some(v) => {
            assert(punct_at(s, 1, '='));
            let t = s.skip(2);
            assert(t =~= v + rest);
            assert(t[0] == v[0]);
            if v.len() == 1 {
                assert(!path_sep_at(t, 0));
                assert(!path_sep_at(t, 1));
                assert(value_len(t) == Some(1int));
            } else {
                assert(t[1] == v[1]);
                assert(value_len(t) == Some(2int));
            }
            assert(t.take(v.len() as int) =~= v);
            assert(s.skip(2 + v.len() as int) =~= rest);
        },
        None => {
            assert(s =~= seq![word(p.key)] + rest);
            assert(!punct_at(s, 1, '='));
            assert(s.skip(1) =~= rest);
        },
    }
}

/// Written-out props, up to the end of the tag, parse back to themselves.
pub proof fn lemma_parse_props_source(ps: Seq<PropV>, tail: Seq<Tok>, acc: Seq<PropV>)
    requires
        forall|i: int| 0 <= i < ps.len() ==> plain_prop(#[trigger] ps[i]),
        punct_at(tail, 0, '>') || punct_at(tail, 0, '/'),
    ensures
        parse_props(props_source(ps) + tail, acc) == parse_props(tail, acc + ps),
    decreases ps.len(),
{
    if ps.len() == 0 {
        assert(props_source(ps) + tail =~= tail);
        assert(acc + ps =~= acc);
    } else {
        let more = props_source(ps.skip(1)) + tail;
        let s = props_source(ps) + tail;
        assert(s =~= prop_source(ps[0]) + more);
        assert(after_prop(more)) by {
            if ps.skip(1).len() > 0 {
                assert(more[0] == prop_source(ps.skip(1)[0])[0]);
            } else {
                assert(more =~= tail);
            }
        }
        lemma_parse_prop_source(ps[0], more);
        assert(s[0] == word(ps[0].key));
        lemma_parse_props_source(ps.skip(1), tail, acc.push(ps[0]));
        assert(acc.push(ps[0]) + ps.skip(1) =~= acc + ps);
    }
}

/// The closing tag `</name>`.
pub open spec fn closing_tag(name: Seq<char>) -> Seq<Tok> {
    seq![alone('<'), alone('/'), word(name), alone('>')]
}

/// An element written out as markup: its attributes, its opening tag with
/// its props, and either `/>` or its children and its closing tag.
pub open spec fn node_source(n: NodeV) -> Seq<Tok>
    decreases n,
{
    events_source(n.events) + styles_source(n.styles) + classes_source(n.classes) + seq![
        alone('<'),
        word(n.ident),
    ] + props_source(n.props) + if n.is_closed {
        seq![alone('/'), alone('>')]
    } else {
        seq![alone('>')] + nodes_source(n.children) + closing_tag(n.ident)
    }
}

/// Elements written out one after another.
pub open spec fn nodes_source(cs: Seq<NodeV>) -> Seq<Tok>
    decreases cs,
{
    if cs.len() == 0 {
        Seq::empty()
    } else {
        node_source(cs[0]) + nodes_source(cs.skip(1))
    }
}

/// An element that can be written out as markup: its name and its props'
/// keys are identifiers, its attributes' arguments and its props' values
/// are written the plain way, it has no children if it closes itself, and
/// so on for its children.
pub open spec fn plain_node(n: NodeV) -> bool
    decreases n,
{
    &&& !is_keyword(n.ident)
    &&& forall|i: int| 0 <= i < n.events.len() ==> plain_event(#[trigger] n.events[i])
    &&& forall|i: int| 0 <= i < n.styles.len() ==> plain_arg(#[trigger] n.styles[i])
    &&& forall|i: int| 0 <= i < n.classes.len() ==> plain_args(#[trigger] n.classes[i])
    &&& forall|i: int| 0 <= i < n.props.len() ==> plain_prop(#[trigger] n.props[i])
    &&& n.is_closed ==> n.children.len() == 0
    &&& plain_nodes(n.children)
}

/// Elements that can all be written out as markup.
pub open spec fn plain_nodes(cs: Seq<NodeV>) -> bool
    decreases cs,
{
    cs.len() == 0 || (plain_node(cs[0]) && plain_nodes(cs.skip(1)))
}

/// The number of elements of `n`, itself included.
pub open spec fn size(n: NodeV) -> nat
    decreases n,
{
    1 + sizes(n.children)
}

/// The number of elements of `cs` and their descendants.
pub open spec fn sizes(cs: Seq<NodeV>) -> nat
    decreases cs,
{
    if cs.len() == 0 {
        0
    } else {
        size(cs[0]) + sizes(cs.skip(1))
    }
}

/// `n` as the parser gives it back when numbering starts at `idx`: each
/// element numbered in the order in which it opens, none of them a root,
/// none with a prefix.
pub open spec fn numbered(n: NodeV, idx: nat) -> NodeV
    decreases n,
{
    NodeV {
        ident: n.ident,
        prefix: Seq::empty(),
        root: false,
        index: idx as usize,
        is_closed: n.is_closed,
        events: n.events,
        classes: n.classes,
        styles: n.styles,
        props: n.props,
        children: numbered_all(n.children, idx + 1),
    }
}

/// `cs` numbered one after another from `idx`.
pub open spec fn numbered_all(cs: Seq<NodeV>, idx: nat) -> Seq<NodeV>
    decreases cs,
{
    if cs.len() == 0 {
        Seq::empty()
    } else {
        seq![numbered(cs[0], idx)] + numbered_all(cs.skip(1), idx + size(cs[0]))
    }
}

/// Written-out markup starts with `#` or with `<` and a name.
proof fn lemma_node_source_start(n: NodeV)
    ensures
        node_source(n).len() >= 3,
        punct_at(node_source(n), 0, '#') || (punct_at(node_source(n), 0, '<') && node_source(
            n,
        )[1] is Ident),
{
    let s = node_source(n);
    let attrs = events_source(n.events) + styles_source(n.styles) + classes_source(n.classes);
    if attrs.len() > 0 {
        if n.events.len() > 0 {
            assert(attrs[0] == event_source(n.events[0])[0]);
        } else if n.styles.len() > 0 {
            assert(events_source(n.events) =~= Seq::<Tok>::empty());
            assert(attrs[0] == style_source(n.styles[0])[0]);
        } else {
            assert(events_source(n.events) =~= Seq::<Tok>::empty());
            assert(styles_source(n.styles) =~= Seq::<Tok>::empty());
            assert(attrs[0] == class_source(n.classes[0])[0]);
        }
        assert(s[0] == attrs[0]);
    } else {
        assert(s[0] == alone('<'));
        assert(s[1] == word(n.ident));
    }
}

/// The attributes of an element, written out, are gathered back.
proof fn lemma_parse_attrs_source(n: NodeV, after: Seq<Tok>)
    requires
        plain_node(n),
        !punct_at(after, 0, '#'),
    ensures
        parse_attrs(
            events_source(n.events) + styles_source(n.styles) + classes_source(n.classes) + after,
            no_attrs(),
        ) == Ok::<(AttrsV, Seq<Tok>), crate::uix::syntax::UIxError>(
            (AttrsV { events: n.events, classes: n.classes, styles: n.styles }, after),
        ),
{
    let after_styles = classes_source(n.classes) + after;
    let after_events = styles_source(n.styles) + after_styles;
    assert(events_source(n.events) + styles_source(n.styles) + classes_source(n.classes) + after
        =~= events_source(n.events) + after_events);
    lemma_parse_events(n.events, after_events, no_attrs());
    let acc1 = AttrsV { events: no_attrs().events + n.events, ..no_attrs() };
    lemma_parse_styles(n.styles, after_styles, acc1);
    let acc2 = AttrsV { styles: acc1.styles + n.styles, ..acc1 };
    lemma_parse_classes(n.classes, after, acc2);
    let acc3 = AttrsV { classes: acc2.classes + n.classes, ..acc2 };
    assert(acc3 =~= AttrsV { events: n.events, classes: n.classes, styles: n.styles });
}

/// An element written out as markup parses back to itself, numbered from
/// `idx`, whatever follows it.
pub proof fn lemma_parse_node_source(n: NodeV, idx: nat, rest: Seq<Tok>)
    requires
        plain_node(n),
        idx + size(n) <= usize::MAX,
    ensures
        parse_node(node_source(n) + rest, idx as usize) == Ok::<
            (NodeV, Seq<Tok>, usize),
            crate::uix::syntax::UIxError,
        >((numbered(n, idx), rest, (idx + size(n)) as usize)),
    decreases n,
{
    let s = node_source(n) + rest;
    let tag = seq![alone('<'), word(n.ident)];
    let tail = if n.is_closed {
        seq![alone('/'), alone('>')]
    } else {
        seq![alone('>')] + nodes_source(n.children) + closing_tag(n.ident)
    };
    let after_classes = tag + props_source(n.props) + tail + rest;
    assert(s =~= events_source(n.events) + styles_source(n.styles) + classes_source(n.classes)
        + after_classes);
    assert(!punct_at(after_classes, 0, '#'));
    lemma_parse_attrs_source(n, after_classes);
    assert(punct_at(after_classes, 0, '<'));
    assert(after_classes[1] == word(n.ident));
    assert(is_ident_tok(after_classes[1]));
    let s2 = after_classes.skip(2);
    assert(s2 =~= props_source(n.props) + (tail + rest));
    assert(punct_at(tail + rest, 0, '>') || punct_at(tail + rest, 0, '/'));
    lemma_parse_props_source(n.props, tail + rest, Seq::empty());
    assert(Seq::<PropV>::empty() + n.props =~= n.props);
    if n.is_closed {
        assert(punct_at(tail + rest, 1, '>'));
        assert((tail + rest).skip(2) =~= rest);
        assert(n.children.len() == 0);
        assert(numbered_all(n.children, idx + 1) =~= Seq::<NodeV>::empty());
        assert(sizes(n.children) == 0);
    } else {
        let kids = nodes_source(n.children) + closing_tag(n.ident) + rest;
        assert((tail + rest).skip(1) =~= kids);
        assert(kids.len() < s.len());
        lemma_parse_nodes_source(n.children, n.ident, idx + 1, rest);
    }
}

/// Elements written out as markup, followed by the closing tag of their
/// parent, parse back to themselves, numbered one after another from `idx`.
pub proof fn lemma_parse_nodes_source(cs: Seq<NodeV>, name: Seq<char>, idx: nat, rest: Seq<Tok>)
    requires
        plain_nodes(cs),
        !is_keyword(name),
        idx + sizes(cs) <= usize::MAX,
    ensures
        parse_nodes(nodes_source(cs) + closing_tag(name) + rest, name, idx as usize) == Ok::<
            (Seq<NodeV>, Seq<Tok>, usize),
            crate::uix::syntax::UIxError,
        >((numbered_all(cs, idx), rest, (idx + sizes(cs)) as usize)),
    decreases cs,
{
    let s = nodes_source(cs) + closing_tag(name) + rest;
    if cs.len() == 0 {
        assert(s =~= closing_tag(name) + rest);
        assert(s[2] == word(name));
        assert(s.skip(4) =~= rest);
    } else {
        let c = cs[0];
        let more = nodes_source(cs.skip(1)) + closing_tag(name) + rest;
        assert(s =~= node_source(c) + more);
        lemma_node_source_start(c);
        assert(s[0] == node_source(c)[0]);
        assert(s[1] == node_source(c)[1]);
        assert(!(punct_at(s, 0, '<') && punct_at(s, 1, '/')));
        lemma_parse_node_source(c, idx, more);
        assert(more.len() < s.len());
        lemma_parse_nodes_source(cs.skip(1), name, idx + size(c), rest);
        assert(seq![numbered(c, idx)] + numbered_all(cs.skip(1), idx + size(c)) =~= numbered_all(
            cs,
            idx,
        ));
    }
}

/// Elements marked as roots of their block.
pub open spec fn as_roots(ns: Seq<NodeV>) -> Seq<NodeV> {
    ns.map_values(|n: NodeV| NodeV { root: true, ..n })
}

/// Root elements written out as markup, after what a block already holds,
/// parse back to themselves, marked as roots and numbered one after another
/// from `idx`.
pub proof fn lemma_parse_roots_source(cs: Seq<NodeV>, idx: nat, acc: BlockV)
    requires
        plain_nodes(cs),
        idx + sizes(cs) <= usize::MAX,
    ensures
        parse_block_from(nodes_source(cs), idx as usize, acc) == Ok::<
            (BlockV, usize),
            crate::uix::syntax::UIxError,
        >(
            (
                BlockV { roots: acc.roots + as_roots(numbered_all(cs, idx)), styles: acc.styles },
                (idx + sizes(cs)) as usize,
            ),
        ),
    decreases cs.len(),
{
    let s = nodes_source(cs);
    if cs.len() == 0 {
        assert(s =~= Seq::<Tok>::empty());
        assert(numbered_all(cs, idx) =~= Seq::<NodeV>::empty());
        assert(acc.roots + as_roots(Seq::<NodeV>::empty()) =~= acc.roots);
        assert(BlockV { roots: acc.roots, styles: acc.styles } =~= acc);
    } else {
        let c = cs[0];
        let more = nodes_source(cs.skip(1));
        assert(s =~= node_source(c) + more);
        lemma_node_source_start(c);
        assert(s[0] == node_source(c)[0]);
        assert(!punct_at(s, 0, '.'));
        lemma_parse_node_source(c, idx, more);
        assert(more.len() < s.len());
        let n = numbered(c, idx);
        let acc1 = BlockV { roots: acc.roots.push(NodeV { root: true, ..n }), styles: acc.styles };
        lemma_parse_roots_source(cs.skip(1), idx + size(c), acc1);
        assert(numbered_all(cs, idx) =~= seq![n] + numbered_all(cs.skip(1), idx + size(c)));
        assert(acc1.roots + as_roots(numbered_all(cs.skip(1), idx + size(c))) =~= acc.roots
            + as_roots(numbered_all(cs, idx)));
    }
}

/// A block of root elements written out as markup parses back to those
/// elements, marked as roots and numbered one after another from `idx`.
pub proof fn lemma_parse_block_source(cs: Seq<NodeV>, idx: nat)
    requires
        plain_nodes(cs),
        idx + sizes(cs) <= usize::MAX,
    ensures
        parse_block(nodes_source(cs), idx as usize) == Ok::<(BlockV, usize), crate::uix::syntax::UIxError>(
            (
                BlockV { roots: as_roots(numbered_all(cs, idx)), styles: Seq::empty() },
                (idx + sizes(cs)) as usize,
            ),
        ),
{
    let acc = BlockV { roots: Seq::empty(), styles: Seq::empty() };
    lemma_parse_roots_source(cs, idx, acc);
    assert(acc.roots + as_roots(numbered_all(cs, idx)) =~= as_roots(numbered_all(cs, idx)));
}

/// Class names written out: `.name`, with a comma between each two.
pub open spec fn class_names_source(names: Seq<Seq<char>>) -> Seq<Tok>
    decreases names.len(),
{
    if names.len() == 0 {
        Seq::empty()
    } else if names.len() == 1 {
        seq![alone('.'), word(names[0])]
    } else {
        seq![alone('.'), word(names[0]), alone(',')] + class_names_source(names.skip(1))
    }
}

/// A class block written out: its class names, then its style
/// expressions in braces.
pub open spec fn class_block_source(names: Seq<Seq<char>>, exprs: Seq<Seq<Tok>>) -> Seq<Tok> {
    class_names_source(names) + seq![grp(Delimiter::Brace, join_args(exprs))]
}

/// Class names that can be written out: identifiers.
pub open spec fn plain_names(names: Seq<Seq<char>>) -> bool {
    forall|i: int| 0 <= i < names.len() ==> !is_keyword(#[trigger] names[i])
}

/// Written-out class names, up to the braces, are gathered in order.
pub proof fn lemma_parse_class_names_source(names: Seq<Seq<char>>, rest: Seq<Tok>, acc: Seq<Seq<char>>)
    requires
        plain_names(names),
        rest.len() > 0,
        is_group(rest[0], Delimiter::Brace),
    ensures
        parse_class_names(class_names_source(names) + rest, acc) == Ok::<
            (Seq<Seq<char>>, Seq<Tok>),
            crate::uix::syntax::UIxError,
        >((acc + names, rest)),
    decreases names.len(),
{
    let s = class_names_source(names) + rest;
    if names.len() == 0 {
        assert(s =~= rest);
        assert(acc + names =~= acc);
    } else if names.len() == 1 {
        assert(s =~= seq![alone('.'), word(names[0])] + rest);
        assert(s[1] == word(names[0]));
        assert(!is_keyword(names[0]));
        assert(s.skip(2) =~= rest);
        assert(acc.push(names[0]) =~= acc + names);
        assert(parse_class_names(rest, acc.push(names[0])) == Ok::<
            (Seq<Seq<char>>, Seq<Tok>),
            crate::uix::syntax::UIxError,
        >((acc.push(names[0]), rest)));
    } else {
        let more = class_names_source(names.skip(1)) + rest;
        assert(s =~= seq![alone('.'), word(names[0])] + (seq![alone(',')] + more));
        assert(s[1] == word(names[0]));
        let s2 = s.skip(2);
        assert(s2 =~= seq![alone(',')] + more);
        assert(s2.skip(1) =~= more);
        assert(plain_names(names.skip(1))) by {
            assert forall|i: int| 0 <= i < names.skip(1).len() implies !is_keyword(
                #[trigger] names.skip(1)[i],
            ) by {
                assert(names.skip(1)[i] == names[i + 1]);
            }
        }
        assert(!is_keyword(names[0]));
        lemma_parse_class_names_source(names.skip(1), rest, acc.push(names[0]));
        assert(acc.push(names[0]) + names.skip(1) =~= acc + names);
        assert(parse_class_names(s2, acc.push(names[0])) == parse_class_names(
            more,
            acc.push(names[0]),
        ));
    }
}

/// A written-out class block parses back to its names and expressions.
pub proof fn lemma_parse_class_block_source(names: Seq<Seq<char>>, exprs: Seq<Seq<Tok>>, rest: Seq<Tok>)
    requires
        plain_names(names),
        plain_args(exprs),
    ensures
        parse_class_block(class_block_source(names, exprs) + rest) == Ok::<
            (Seq<Seq<char>>, Seq<Seq<Tok>>, Seq<Tok>),
            crate::uix::syntax::UIxError,
        >((names, exprs, rest)),
{
    let tail = seq![grp(Delimiter::Brace, join_args(exprs))] + rest;
    assert(class_block_source(names, exprs) + rest =~= class_names_source(names) + tail);
    lemma_parse_class_names_source(names, tail, Seq::empty());
    assert(Seq::<Seq<char>>::empty() + names =~= names);
    lemma_split_join(exprs);
    assert(tail.skip(1) =~= rest);
}

/// A part of a block: a class block, or a root element.
pub enum BlockPart {
    Classes(Seq<Seq<char>>, Seq<Seq<Tok>>),
    Element(NodeV),
}

/// A part of a block that can be written out.
pub open spec fn plain_part(p: BlockPart) -> bool {
    match p {
        BlockPart::Classes(names, exprs) => names.len() > 0 && plain_names(names) && plain_args(
            exprs,
        ),
        BlockPart::Element(n) => plain_node(n),
    }
}

/// A part of a block written out.
pub open spec fn part_source(p: BlockPart) -> Seq<Tok> {
    match p {
        BlockPart::Classes(names, exprs) => class_block_source(names, exprs),
        BlockPart::Element(n) => node_source(n),
    }
}

/// Parts of a block written out one after another.
pub open spec fn parts_source(ps: Seq<BlockPart>) -> Seq<Tok>
    decreases ps.len(),
{
    if ps.len() == 0 {
        Seq::empty()
    } else {
        part_source(ps[0]) + parts_source(ps.skip(1))
    }
}

/// The number of elements of the parts of a block.
pub open spec fn parts_size(ps: Seq<BlockPart>) -> nat
    decreases ps.len(),
{
    if ps.len() == 0 {
        0
    } else {
        match ps[0] {
            BlockPart::Classes(_, _) => parts_size(ps.skip(1)),
            BlockPart::Element(n) => size(n) + parts_size(ps.skip(1)),
        }
    }
}

/// What a block holds after its parts: the roots numbered one after
/// another from `idx`, and the styles of the class blocks added in order.
pub open spec fn block_after(ps: Seq<BlockPart>, idx: nat, acc: BlockV) -> BlockV
    decreases ps.len(),
{
    if ps.len() == 0 {
        acc
    } else {
        match ps[0] {
            BlockPart::Classes(names, exprs) => block_after(
                ps.skip(1),
                idx,
                BlockV { roots: acc.roots, styles: add_class_block(acc.styles, names, exprs) },
            ),
            BlockPart::Element(n) => block_after(
                ps.skip(1),
                idx + size(n),
                BlockV {
                    roots: acc.roots.push(NodeV { root: true, ..numbered(n, idx) }),
                    styles: acc.styles,
                },
            ),
        }
    }
}

/// A block written out as class blocks and root elements, in any order,
/// parses back to those roots, numbered one after another from `idx`, and
/// to the styles of its class blocks.
#[verifier::rlimit(40)]
pub proof fn lemma_parse_parts_source(ps: Seq<BlockPart>, idx: nat, acc: BlockV)
    requires
        forall|i: int| 0 <= i < ps.len() ==> plain_part(#[trigger] ps[i]),
        forall|i: int| 0 <= i < ps.len() && #[trigger] ps[i] is Classes ==> i + 1 < ps.len(),
        idx + parts_size(ps) <= usize::MAX,
    ensures
        parse_block_from(parts_source(ps), idx as usize, acc) == Ok::<
            (BlockV, usize),
            crate::uix::syntax::UIxError,
        >((block_after(ps, idx, acc), (idx + parts_size(ps)) as usize)),
    decreases ps.len(),
{
    let s = parts_source(ps);
    if ps.len() == 0 {
        assert(s =~= Seq::<Tok>::empty());
    } else {
        let p = ps[0];
        assert(plain_part(p));
        let more = parts_source(ps.skip(1));
        assert(s =~= part_source(p) + more);
        assert(forall|i: int| 0 <= i < ps.skip(1).len() ==> plain_part(#[trigger] ps.skip(1)[i])) by {
            assert forall|i: int| 0 <= i < ps.skip(1).len() implies plain_part(#[trigger] ps.skip(1)[i]) by {
                assert(ps.skip(1)[i] == ps[i + 1]);
            }
        }
        assert forall|i: int| 0 <= i < ps.skip(1).len() && #[trigger] ps.skip(1)[i] is Classes implies i + 1
            < ps.skip(1).len() by {
            assert(ps.skip(1)[i] == ps[i + 1]);
        }
        match p {
            BlockPart::Classes(names, exprs) => {
                assert(ps[0] is Classes);
                assert(ps.len() > 1);
                let q = ps[1];
                assert(ps.skip(1)[0] == q);
                assert(plain_part(q));
                assert(more =~= part_source(q) + parts_source(ps.skip(1).skip(1)));
                match q {
                    BlockPart::Classes(n2, x2) => {
                        assert(class_names_source(n2)[0] == alone('.'));
                        assert(more[0] == alone('.'));
                    },
                    BlockPart::Element(n2) => {
                        lemma_node_source_start(n2);
                        assert(more[0] == node_source(n2)[0]);
                    },
                }
                assert(more.len() > 0);
                lemma_parse_class_block_source(names, exprs, more);
                assert(class_names_source(names)[0] == alone('.'));
                assert(s[0] == alone('.'));
                assert(more.len() < s.len());
                let acc1 = BlockV { roots: acc.roots, styles: add_class_block(acc.styles, names, exprs) };
                lemma_parse_parts_source(ps.skip(1), idx, acc1);
            },
            BlockPart::Element(n) => {
                lemma_node_source_start(n);
                assert(s[0] == node_source(n)[0]);
                assert(!punct_at(s, 0, '.'));
                lemma_parse_node_source(n, idx, more);
                assert(more.len() < s.len());
                let acc1 = BlockV {
                    roots: acc.roots.push(NodeV { root: true, ..numbered(n, idx) }),
                    styles: acc.styles,
                };
                lemma_parse_parts_source(ps.skip(1), idx + size(n), acc1);
            },
        }
    }
}

/// A whole block written out as class blocks and root elements parses back
/// to its roots, numbered one after another from `idx`, and to the styles
/// of its class blocks.
pub proof fn lemma_parse_block_parts(ps: Seq<BlockPart>, idx: nat)
    requires
        forall|i: int| 0 <= i < ps.len() ==> plain_part(#[trigger] ps[i]),
        forall|i: int| 0 <= i < ps.len() && #[trigger] ps[i] is Classes ==> i + 1 < ps.len(),
        idx + parts_size(ps) <= usize::MAX,
    ensures
        parse_block(parts_source(ps), idx as usize) == Ok::<(BlockV, usize), crate::uix::syntax::UIxError>(
            (
                block_after(ps, idx, BlockV { roots: Seq::empty(), styles: Seq::empty() }),
                (idx + parts_size(ps)) as usize,
            ),
        ),
{
    lemma_parse_parts_source(ps, idx, BlockV { roots: Seq::empty(), styles: Seq::empty() });
}


/// The numbers of `n` and of its descendants, in the order in which they
/// open.
pub open spec fn indices(n: NodeV) -> Seq<usize>
    decreases n,
{
    seq![n.index] + indices_all(n.children)
}

/// The numbers of `cs` and of their descendants, in the order in which they
/// open.
pub open spec fn indices_all(cs: Seq<NodeV>) -> Seq<usize>
    decreases cs,
{
    if cs.len() == 0 {
        Seq::empty()
    } else {
        indices(cs[0]) + indices_all(cs.skip(1))
    }
}

/// Any element the parser reads, numbered from `idx`, has one number for
/// itself and each descendant; while the numbers do not pass `usize::MAX`,
/// they are `idx`, `idx + 1`, .. in the order in which the elements open,
/// and the next number is the first one after them.
pub proof fn lemma_parse_node_indices(s: Seq<Tok>, idx: usize)
    ensures
        parse_node(s, idx) matches Ok((n, rest, j)) ==> {
            &&& indices(n).len() == size(n)
            &&& idx + size(n) <= usize::MAX ==> j == idx + size(n) && forall|k: int|
                0 <= k < size(n) ==> #[trigger] indices(n)[k] == idx + k
        },
    decreases s.len(), 0nat,
{
    match parse_attrs(s, no_attrs()) {
        Err(_) => {},
        Ok((attrs, s1)) => {
            if punct_at(s1, 0, '<') && s1.len() > 1 && is_ident_tok(s1[1]) {
                let name = s1[1]->Ident_0;
                match parse_props(s1.skip(2), Seq::empty()) {
                    Err(_) => {},
                    Ok((props, closed, s2)) => {
                        if closed {
                            match parse_node(s, idx) {
                                Ok((n, rest, j)) => {
                                    assert(n.children.len() == 0);
                                    assert(indices_all(n.children) =~= Seq::<usize>::empty());
                                    assert(sizes(n.children) == 0);
                                    assert(indices(n) =~= seq![idx]);
                                },
                                Err(_) => {},
                            }
                        } else if s2.len() < s.len() {
                            let i0 = next_index(idx);
                            lemma_parse_nodes_indices(s2, name, i0);
                            match parse_node(s, idx) {
                                Ok((n, rest, j)) => {
                                    let kids = n.children;
                                    assert(parse_nodes(s2, name, i0) matches Ok((k2, _, j2)) && k2
                                        == kids && j2 == j);
                                    assert(indices(n) == seq![idx] + indices_all(kids));
                                    assert(size(n) == 1 + sizes(kids));
                                    if idx + size(n) <= usize::MAX {
                                        assert(i0 == idx + 1);
                                        assert forall|k: int| 0 <= k < size(n) implies #[trigger] indices(
                                            n,
                                        )[k] == idx + k by {
                                            if k > 0 {
                                                assert(indices(n)[k] == indices_all(kids)[k - 1]);
                                            }
                                        }
                                    }
                                },
                                Err(_) => {},
                            }
                        }
                    },
                }
            }
        },
    }
}

/// Any children the parser reads, numbered from `idx`, have one number for
/// each of them and their descendants; while the numbers do not pass
/// `usize::MAX`, they are `idx`, `idx + 1`, .. in the order in which the
/// elements open, and the next number is the first one after them.
pub proof fn lemma_parse_nodes_indices(s: Seq<Tok>, name: Seq<char>, idx: usize)
    ensures
        parse_nodes(s, name, idx) matches Ok((cs, rest, j)) ==> {
            &&& indices_all(cs).len() == sizes(cs)
            &&& idx + sizes(cs) <= usize::MAX ==> j == idx + sizes(cs) && forall|k: int|
                0 <= k < sizes(cs) ==> #[trigger] indices_all(cs)[k] == idx + k
        },
    decreases s.len(), 1nat,
{
    if punct_at(s, 0, '<') && punct_at(s, 1, '/') {
        match parse_nodes(s, name, idx) {
            Ok((cs, rest, j)) => {
                assert(cs.len() == 0);
                assert(indices_all(cs) =~= Seq::<usize>::empty());
            },
            Err(_) => {},
        }
    } else {
        match parse_node(s, idx) {
            Err(_) => {},
            Ok((c, s1, i1)) => {
                if s1.len() < s.len() {
                    lemma_parse_node_indices(s, idx);
                    lemma_parse_nodes_indices(s1, name, i1);
                    match parse_nodes(s, name, idx) {
                        Ok((cs, rest, j)) => {
                            let kids = cs.skip(1);
                            let (k2, _, j2) = parse_nodes(s1, name, i1).unwrap();
                            assert(cs =~= seq![c] + k2 && j2 == j);
                            assert(kids =~= k2);
                            assert(cs[0] == c);
                            assert(indices(c).len() == size(c));
                            assert(indices_all(cs) == indices(c) + indices_all(kids));
                            assert(sizes(cs) == size(c) + sizes(kids));
                            if idx + sizes(cs) <= usize::MAX {
                                assert forall|k: int| 0 <= k < sizes(cs) implies #[trigger] indices_all(
                                    cs,
                                )[k] == idx + k by {
                                    if k >= size(c) {
                                        assert(i1 == idx + size(c));
                                        assert(indices_all(kids)[k - size(c)] == i1 + (k - size(c)));
                                        assert(indices_all(cs)[k] == indices_all(kids)[k - size(c)]);
                                    } else {
                                        assert(indices_all(cs)[k] == indices(c)[k]);
                                    }
                                }
                            }
                        },
                        Err(_) => {},
                    }
                }
            },
        }
    }
}

/// The elements the parser reads get numbers that differ from each other,
/// while the numbers do not pass `usize::MAX`.
pub proof fn lemma_parse_node_numbers_distinct(s: Seq<Tok>, idx: usize)
    ensures
        parse_node(s, idx) matches Ok((n, rest, j)) ==> (idx + size(n) <= usize::MAX
            ==> indices(n).no_duplicates()),
{
    lemma_parse_node_indices(s, idx);
}

} // verus!
