use slate::uix::expand::uix;
use slate::uix::markup::{UIxBlock, UIxElement};
use slate::uix::styles::{styles, StylesBlock};
use slate::uix::syntax::{split_arguments, word_is_keyword, UIxError};
use slate::uix::token::{Delimiter, Spacing, TokenStream, TokenTree};

fn id(w: &str) -> TokenTree {
    TokenTree::Ident(w.to_string())
}

fn p(c: char) -> TokenTree {
    TokenTree::Punct(c, Spacing::Alone)
}

fn pj(c: char) -> TokenTree {
    TokenTree::Punct(c, Spacing::Joint)
}

fn lit(text: &str) -> TokenTree {
    TokenTree::Literal(text.to_string())
}

fn group(d: Delimiter, inner: Vec<TokenTree>) -> TokenTree {
    TokenTree::Group(d, inner)
}

fn paren(inner: Vec<TokenTree>) -> TokenTree {
    group(Delimiter::Parenthesis, inner)
}

fn brace(inner: Vec<TokenTree>) -> TokenTree {
    group(Delimiter::Brace, inner)
}

fn attr(inner: Vec<TokenTree>) -> Vec<TokenTree> {
    vec![p('#'), group(Delimiter::Bracket, inner)]
}

/// `<name props />`
fn closed(name: &str, props: Vec<TokenTree>) -> Vec<TokenTree> {
    let mut v = vec![p('<'), id(name)];
    v.extend(props);
    v.push(pj('/'));
    v.push(p('>'));
    v
}

/// Writes token trees out as text, one space between tokens, none after a
/// joined punctuation character.
fn text(tokens: &[TokenTree]) -> String {
    let mut out = String::new();
    for t in tokens {
        match t {
            TokenTree::Ident(w) | TokenTree::Literal(w) => {
                out.push_str(w);
                out.push(' ');
            },
            TokenTree::Punct(c, Spacing::Alone) => {
                out.push(*c);
                out.push(' ');
            },
            TokenTree::Punct(c, Spacing::Joint) => out.push(*c),
            TokenTree::Group(d, inner) => {
                let (open, close) = match d {
                    Delimiter::Parenthesis => ("(", ")"),
                    Delimiter::Brace => ("{", "}"),
                    Delimiter::Bracket => ("[", "]"),
                    Delimiter::Invisible => ("", ""),
                };
                out.push_str(open);
                out.push(' ');
                out.push_str(&text(inner));
                out.push_str(close);
                out.push(' ');
            },
        }
    }
    out
}

fn parse(tokens: Vec<TokenTree>) -> Result<(UIxBlock, usize), UIxError> {
    UIxBlock::parse(tokens, 0)
}

fn err(tokens: Vec<TokenTree>) -> UIxError {
    match parse(tokens) {
        Err(e) => e,
        Ok(_) => panic!("expected an error"),
    }
}

#[test]
fn a_self_closing_element() {
    let (block, next) = parse(closed("ElementTestImpl", vec![id("name"), p('='), lit("\"Second Root\"")])).unwrap();
    assert_eq!(next, 1);
    let roots = block.roots();
    assert_eq!(roots.len(), 1);
    let e = &roots[0];
    assert_eq!(e.ident, "ElementTestImpl");
    assert!(e.root && e.is_closed);
    assert_eq!(e.index, 0);
    assert_eq!(e.props.len(), 1);
    assert_eq!(e.props[0].key, "name");
    assert_eq!(text(&e.props[0].value.as_ref().unwrap().0), "\"Second Root\" ");
    assert!(e.children.is_empty());
}

#[test]
fn nested_elements_are_numbered_as_they_open() {
    // <A><B n=1 /><C /></A> <D />
    let mut tokens = vec![p('<'), id("A"), p('>')];
    tokens.extend(closed("B", vec![id("n"), p('='), lit("1")]));
    tokens.extend(closed("C", vec![]));
    tokens.extend(vec![p('<'), pj('/'), id("A"), p('>')]);
    tokens.extend(closed("D", vec![]));
    let (block, next) = UIxBlock::parse(tokens, 7).unwrap();
    assert_eq!(next, 11);
    let roots = block.roots();
    assert_eq!(roots.len(), 2);
    assert_eq!((roots[0].ident.as_str(), roots[0].index, roots[0].is_closed), ("A", 7, false));
    assert_eq!(roots[0].children.len(), 2);
    assert_eq!((roots[0].children[0].ident.as_str(), roots[0].children[0].index), ("B", 8));
    assert_eq!((roots[0].children[1].ident.as_str(), roots[0].children[1].index), ("C", 9));
    assert!(!roots[0].children[0].root);
    assert_eq!((roots[1].ident.as_str(), roots[1].index), ("D", 10));
}

#[test]
fn prop_values() {
    let props = vec![
        id("flag"),
        id("a"), p('='), lit("0usize"),
        id("b"), p('='), pj('-'), lit("2"),
        id("c"), p('='), brace(vec![id("x")]),
        id("d"), p('='), id("root01_name"),
        id("e"), p('='), pj(':'), p(':'), id("std"), pj(':'), p(':'), id("f"),
        id("g"), p('='), id("true"),
        id("h"), p('='), group(Delimiter::Bracket, vec![lit("1")]),
    ];
    let (block, _) = parse(closed("A", props)).unwrap();
    let ps = &block.roots()[0].props;
    assert_eq!(ps.len(), 8);
    assert!(ps[0].value.is_none());
    let values: Vec<String> = ps[1..].iter().map(|p| text(&p.value.as_ref().unwrap().0)).collect();
    assert_eq!(values, vec!["0usize ", "-2 ", "{ x } ", "root01_name ", ":: std :: f ", "true ", "[ 1 ] "]);
}

#[test]
fn attributes_are_gathered_by_kind() {
    let mut tokens = attr(vec![id("on"), paren(vec![id("Click"), p(','), id("a"), p(','), id("b")])]);
    tokens.extend(attr(vec![id("doc"), p('='), lit("\"a doc line\"")]));
    tokens.extend(attr(vec![id("style"), paren(vec![id("BackgroundColor"), p(','), lit("1")])]));
    tokens.extend(attr(vec![id("class"), paren(vec![id("c1"), p(','), id("c2"), p(',')])]));
    tokens.extend(attr(vec![id("uuid"), paren(vec![lit("3500"), pj('-'), id("cdef")])]));
    tokens.extend(closed("A", vec![]));
    let (block, _) = parse(tokens).unwrap();
    let e = &block.roots()[0];
    assert_eq!(e.events.len(), 1);
    assert_eq!(text(e.events[0].kind()), "Click ");
    assert_eq!(e.events[0].handlers().len(), 2);
    assert_eq!(e.styles.len(), 1);
    assert_eq!(text(e.styles[0].expr()), "BackgroundColor , 1 ");
    assert_eq!(e.classes.len(), 1);
    assert_eq!(e.classes[0].classes().len(), 2);
}

#[test]
fn error_kinds() {
    // A closing tag that names another element.
    assert_eq!(err(vec![p('<'), id("A"), p('>'), p('<'), pj('/'), id("B"), p('>')]), UIxError::ClosingTagMismatch);
    // An attribute the markup does not know.
    let mut t = attr(vec![id("foo")]);
    t.extend(closed("A", vec![]));
    assert_eq!(err(t), UIxError::UnknownAttribute);
    // An attribute whose path is not a single identifier.
    let mut t = attr(vec![id("a"), pj(':'), p(':'), id("b")]);
    t.extend(closed("A", vec![]));
    assert_eq!(err(t), UIxError::AttributeIdent);
    // `on` without a list.
    let mut t = attr(vec![id("on")]);
    t.extend(closed("A", vec![]));
    assert_eq!(err(t), UIxError::ExpectedList);
    // `on` with an empty list.
    let mut t = attr(vec![id("on"), paren(vec![])]);
    t.extend(closed("A", vec![]));
    assert_eq!(err(t), UIxError::ExpectedEventName);
    // An empty argument.
    let mut t = attr(vec![id("class"), paren(vec![id("a"), p(','), p(','), id("b")])]);
    t.extend(closed("A", vec![]));
    assert_eq!(err(t), UIxError::ExpectedExpr);
    // Tokens left over in an attribute.
    let mut t = attr(vec![id("on"), paren(vec![id("a")]), id("x")]);
    t.extend(closed("A", vec![]));
    assert_eq!(err(t), UIxError::UnexpectedToken);
    // `#` without brackets.
    let mut t = vec![p('#')];
    t.extend(closed("A", vec![]));
    assert_eq!(err(t), UIxError::ExpectedGroup(Delimiter::Bracket));
    // A path that ends in `::`.
    let mut t = attr(vec![id("a"), pj(':'), p(':')]);
    t.extend(closed("A", vec![]));
    assert_eq!(err(t), UIxError::ExpectedPathSegment);
    // No opening tag.
    assert_eq!(err(vec![id("A")]), UIxError::ExpectedPunct('<'));
    // A keyword as a tag name.
    assert_eq!(err(closed("type", vec![])), UIxError::ExpectedIdent);
    // A prop value that is not one.
    assert_eq!(err(closed("A", vec![id("x"), p('='), p('&'), id("y")])), UIxError::ExpectedPropValue);
    // A generic argument list in a path value.
    assert_eq!(
        err(closed("A", vec![id("x"), p('='), id("a"), pj(':'), p(':'), p('<'), id("T"), p('>')])),
        UIxError::ExpectedPropValue
    );
    // A closing tag that is not closed.
    assert_eq!(err(vec![p('<'), id("A"), p('>'), p('<'), pj('/'), id("A")]), UIxError::ExpectedPunct('>'));
    // A class block without braces.
    let mut t = vec![p('.'), id("card")];
    t.extend(closed("A", vec![]));
    assert_eq!(err(t), UIxError::ExpectedGroup(Delimiter::Brace));
    // A class block with a name that is not an identifier.
    assert_eq!(err(vec![p('.'), lit("1"), brace(vec![id("x")])]), UIxError::ExpectedIdent);
}

#[test]
fn class_blocks_give_each_class_its_styles() {
    let mut tokens = vec![
        p('.'), id("card"), p(','), p('.'), id("wide"),
        brace(vec![id("Padding"), paren(vec![lit("4")]), p(','), id("Width"), paren(vec![lit("80")])]),
    ];
    tokens.extend(closed("A", vec![]));
    tokens.extend(vec![p('.'), id("card"), brace(vec![id("Margin"), paren(vec![lit("1")])])]);
    tokens.extend(closed("B", vec![]));
    let (block, _) = parse(tokens).unwrap();
    assert_eq!(block.roots().len(), 2);
    let styles = block.styles();
    assert_eq!(styles.len(), 2);
    assert_eq!(styles[0].name, "card");
    let card: Vec<String> = styles[0].exprs.iter().map(|x| text(x)).collect();
    assert_eq!(card, vec!["Padding ( 4 ) ", "Width ( 80 ) ", "Margin ( 1 ) "]);
    assert_eq!(styles[1].name, "wide");
    assert_eq!(styles[1].exprs.len(), 2);
}

#[test]
fn element_names_have_five_digits() {
    let mut ts = TokenStream::new(closed("A", vec![]));
    let (e, _) = UIxElement::parse(&mut ts, 42).unwrap();
    assert_eq!(e.name(), "_00042");
    let mut ts = TokenStream::new(closed("A", vec![]));
    let (e, _) = UIxElement::parse(&mut ts, 1234567).unwrap();
    assert_eq!(e.name(), "_1234567");
}

#[test]
fn an_element_expands_to_the_calls_that_build_it() {
    let mut tokens = attr(vec![id("on"), paren(vec![id("Click"), p(','), id("a"), p(','), id("b")])]);
    tokens.extend(attr(vec![id("style"), paren(vec![id("Bold")])]));
    tokens.extend(attr(vec![id("class"), paren(vec![id("c1"), p(','), id("c2")])]));
    tokens.extend(closed("Text", vec![id("value"), p('='), lit("\"hi\""), id("flag")]));
    let mut ts = TokenStream::new(tokens);
    let (e, _) = UIxElement::parse(&mut ts, 3).unwrap();
    let mut out = Vec::new();
    e.to_tokens(&mut out);
    assert_eq!(
        text(&out),
        "let _00003 = scaffold . add ( { Text :: default ( ) . with_value ( \"hi\" ) . with_flag ( flag ) } ) ? \
         . with_event_attr ( Click , a ) ? . with_event_attr ( Click , b ) ? \
         . with_style_attr ( Bold ) ? \
         . with_class_attr ( c1 ) ? . with_class_attr ( c2 ) ? \
         . with_children ( | scaffold | { Ok ( ( ) ) } ) ? . build ( ) ; "
    );
}

#[test]
fn children_expand_inside_the_closure() {
    let mut tokens = vec![p('<'), id("A"), p('>')];
    tokens.extend(closed("B", vec![]));
    tokens.extend(vec![p('<'), pj('/'), id("A"), p('>')]);
    let mut ts = TokenStream::new(tokens);
    let (e, _) = UIxElement::parse(&mut ts, 0).unwrap();
    let mut out = Vec::new();
    e.to_tokens(&mut out);
    let s = text(&out);
    assert!(s.starts_with("let _00000 = scaffold . add ( { A :: default ( ) } ) ? . with_children ( | scaffold | { let _00001 = scaffold . add ( { B :: default ( ) } ) ?"));
    assert!(s.ends_with("build ( ) ; Ok ( ( ) ) } ) ? . build ( ) ; "));
}

#[test]
fn uix_wraps_the_block_in_a_closure() {
    let mut tokens = vec![p('.'), id("card"), brace(vec![id("Padding"), paren(vec![lit("4")])])];
    tokens.extend(closed("A", vec![]));
    let (out, next) = uix(tokens, 0);
    assert_eq!(next, 1);
    assert_eq!(out.len(), 1);
    let s = text(&out);
    assert!(s.starts_with("{ use slate :: style :: StyleSheet ; use slate :: style :: primitive :: * ; "));
    assert!(s.contains("use slate :: event :: EventPin :: * ; # [ allow ( unnecessary_braces ) ] "));
    assert!(s.contains("move | scaffold | { let card = move | stylesheet : & mut StyleSheet | { stylesheet . push ( Padding ( 4 ) ) ; } ; let _00000 = scaffold"));
    assert!(s.ends_with("Ok ( ( ) ) } } "));
}

#[test]
fn uix_reports_parse_errors() {
    let (out, next) = uix(vec![p('<'), id("A")], 7);
    assert_eq!(next, 7);
    assert_eq!(text(&out), ":: core :: compile_error ! { \"expected an identifier\" } ");
    assert_eq!(UIxError::ExpectedIdent.to_compile_error().len(), 8);
}

#[test]
fn compile_errors_name_what_was_expected() {
    assert_eq!(text(&UIxError::ExpectedPunct('<').to_compile_error()), ":: core :: compile_error ! { \"expected `<`\" } ");
    assert_eq!(text(&UIxError::ExpectedGroup(Delimiter::Brace).to_compile_error()), ":: core :: compile_error ! { \"expected braces\" } ");
    assert_eq!(text(&UIxError::ClosingTagMismatch.to_compile_error()), ":: core :: compile_error ! { \"the closing tag names another element\" } ");
}

#[test]
fn a_style_attribute_keeps_every_expression() {
    // #[style(class01, class02, render=self.debug_mode)] <A />
    let mut tokens = attr(vec![id("style"), paren(vec![
        id("class01"), p(','), id("class02"), p(','), id("render"), p('='), id("self"), p('.'), id("debug_mode"),
    ])]);
    tokens.extend(closed("A", vec![]));
    let (block, _) = parse(tokens).unwrap();
    let e = &block.roots()[0];
    assert_eq!(text(e.styles[0].expr()), "class01 , class02 , render = self . debug_mode ");
    let mut out = Vec::new();
    e.to_tokens(&mut out);
    assert!(text(&out).contains(". with_style_attr ( class01 , class02 , render = self . debug_mode ) ? "));
    // #[style()] has no expression.
    let mut t = attr(vec![id("style"), paren(vec![])]);
    t.extend(closed("A", vec![]));
    assert_eq!(err(t), UIxError::ExpectedEventName);
}

#[test]
fn styles_make_a_closure_per_class() {
    let tokens = vec![
        p('.'), id("a"), brace(vec![id("x")]),
        p('.'), id("b"), p(','), p('.'), id("a"), brace(vec![id("y"), p(','), id("z")]),
    ];
    let out = styles(tokens);
    let s = text(&out);
    assert!(s.starts_with("# [ allow ( unnecessary_braces ) ] let a = move | stylesheet : & mut slate :: style :: StyleSheet < '_ > | { use slate :: style :: primitive :: * ; "));
    assert!(s.contains("stylesheet . push ( x ) ; stylesheet . push ( y ) ; stylesheet . push ( z ) ; } ; "));
    assert!(s.contains("let b = move"));
    assert_eq!(s.matches("let ").count(), 2);
}

#[test]
fn styles_report_parse_errors() {
    assert_eq!(text(&styles(vec![p('.'), id("a")])), ":: core :: compile_error ! { \"expected braces\" } ");
    assert_eq!(StylesBlock::parse(vec![id("x")]).err(), Some(UIxError::ExpectedPunct('.')));
}

#[test]
fn styles_skip_annotation_lines() {
    // #[allow(unused)] .a { FlexGrow::new(1.) }
    let mut tokens = attr(vec![id("allow"), paren(vec![id("unused")])]);
    tokens.extend(vec![p('.'), id("a"), brace(vec![id("FlexGrow"), pj(':'), p(':'), id("new"), paren(vec![lit("1.")])])]);
    let block = StylesBlock::parse(tokens).unwrap();
    let st = block.styles();
    assert_eq!(st.len(), 1);
    assert_eq!(st[0].name, "a");
    assert_eq!(st[0].exprs.len(), 1);
    assert_eq!(text(&st[0].exprs[0]), "FlexGrow :: new ( 1. ) ");
}

#[test]
fn commas_in_turbofish_and_closure_parameters_separate_nothing() {
    // Vec::<A, B>::new(), |a, b| a, move |x, y| y, a | b
    let args = split_arguments(vec![
        id("Vec"), pj(':'), p(':'), p('<'), id("A"), p(','), id("B"), p('>'), pj(':'), p(':'), id("new"), paren(vec![]),
        p(','), p('|'), id("a"), p(','), id("b"), p('|'), id("a"),
        p(','), id("move"), p('|'), id("x"), p(','), id("y"), p('|'), id("y"),
        p(','), id("a"), p('|'), id("b"),
    ])
    .unwrap();
    let texts: Vec<String> = args.iter().map(|a| text(a)).collect();
    assert_eq!(texts, vec![
        "Vec :: < A , B > :: new ( ) ",
        "| a , b | a ",
        "move | x , y | y ",
        "a | b ",
    ]);
}

#[test]
fn argument_lists_split_at_commas() {
    let args = split_arguments(vec![id("a"), p(','), id("f"), paren(vec![id("x"), p(','), id("y")]), p(',')]).unwrap();
    assert_eq!(args.len(), 2);
    assert_eq!(text(&args[1]), "f ( x , y ) ");
    assert!(split_arguments(vec![]).unwrap().is_empty());
    assert!(split_arguments(vec![p(',')]).is_none());
}

#[test]
fn keywords_are_not_identifiers() {
    assert!(word_is_keyword(&"type".to_string()));
    assert!(word_is_keyword(&"Self".to_string()));
    assert!(!word_is_keyword(&"name".to_string()));
    assert!(!word_is_keyword(&"on".to_string()));
}

#[test]
fn written_out_markup_parses_back() {
    // #[on(Click, handler)] #[style(Bold)] #[class(card)]
    // <Outer name="x" flag><Inner n=-1 /></Outer>
    let mut tokens = attr(vec![id("on"), paren(vec![id("Click"), p(','), id("handler")])]);
    tokens.extend(attr(vec![id("style"), paren(vec![id("Bold")])]));
    tokens.extend(attr(vec![id("class"), paren(vec![id("card")])]));
    tokens.extend(vec![p('<'), id("Outer"), id("name"), p('='), lit("\"x\""), id("flag"), p('>')]);
    tokens.extend(closed("Inner", vec![id("n"), p('='), pj('-'), lit("1")]));
    tokens.extend(vec![p('<'), pj('/'), id("Outer"), p('>')]);
    let (block, next) = UIxBlock::parse(tokens, 5).unwrap();
    assert_eq!(next, 7);
    let outer = &block.roots()[0];
    assert_eq!((outer.ident.as_str(), outer.index, outer.is_closed), ("Outer", 5, false));
    assert_eq!(text(outer.events[0].kind()), "Click ");
    assert_eq!(text(&outer.events[0].handlers()[0]), "handler ");
    assert_eq!(text(outer.styles[0].expr()), "Bold ");
    assert_eq!(text(&outer.classes[0].classes()[0]), "card ");
    assert_eq!(outer.props.len(), 2);
    let inner = &outer.children[0];
    assert_eq!((inner.ident.as_str(), inner.index, inner.is_closed), ("Inner", 6, true));
    assert_eq!(text(&inner.props[0].value.as_ref().unwrap().0), "-1 ");
}

#[test]
fn a_new_element_is_bare() {
    let e = UIxElement::new("Button".to_string(), 12);
    assert_eq!(e.ident, "Button");
    assert_eq!(e.index, 12);
    assert!(!e.root && !e.is_closed);
    assert!(e.prefix.is_empty() && e.props.is_empty() && e.children.is_empty());
    assert!(e.events.is_empty() && e.classes.is_empty() && e.styles.is_empty());
    assert_eq!(e.name(), "_00012");
}
