use std::str::FromStr;

use proc_macro2::{Delimiter as PmDelimiter, Spacing as PmSpacing, TokenStream, TokenTree as PmTree};
use slate::uix::derive::{check_derive, derive_element};
use slate::uix::expand::uix;
use slate::uix::markup::UIxBlock;
use slate::uix::syntax::UIxError;
use slate::uix::token::{Delimiter, Spacing, TokenTree};

fn tokens(source: &str) -> Vec<TokenTree> {
    fn convert(stream: TokenStream) -> Vec<TokenTree> {
        stream
            .into_iter()
            .map(|tree| match tree {
                PmTree::Group(g) => TokenTree::Group(
                    match g.delimiter() {
                        PmDelimiter::Parenthesis => Delimiter::Parenthesis,
                        PmDelimiter::Brace => Delimiter::Brace,
                        PmDelimiter::Bracket => Delimiter::Bracket,
                        PmDelimiter::None => Delimiter::Invisible,
                    },
                    convert(g.stream()),
                ),
                PmTree::Ident(i) => TokenTree::Ident(i.to_string()),
                PmTree::Punct(p) => TokenTree::Punct(
                    p.as_char(),
                    match p.spacing() {
                        PmSpacing::Joint => Spacing::Joint,
                        PmSpacing::Alone => Spacing::Alone,
                    },
                ),
                PmTree::Literal(l) => TokenTree::Literal(l.to_string()),
            })
            .collect()
    }
    convert(TokenStream::from_str(source).unwrap())
}

const README_EXAMPLE: &str = r##"
    #[style(class01, class02, render=self.debug_mode)]
    <ElementTestImpl
        name=root01_name
        number=0usize
        uuid={UUID::new_v4()}>
        <ElementTestImpl name="Child of First Root" number=3>
            <ElementTestImpl name="First Nested Child of First Root" number=10 />
            <ElementTestImpl name="Second Nested Child of First Root" number=31 />
        </ElementTestImpl>
    </ElementTestImpl>

    <ElementTestImpl name="Second Root">
        <ElementTestImpl name="First Nested Child of First Child of Second Root" />
    </ElementTestImpl>

    <ElementTestImpl name="Third Root">
        <ElementTestImpl name="First Child of Third Root" />
        <ElementTestImpl name="Second Child of Third Root" />
        <ElementTestImpl name="Third Child of Third Root" number=6>
            <ElementTestImpl name="First Nested Child of Third Child of Third Root" />
        </ElementTestImpl>
    </ElementTestImpl>
"##;

#[test]
fn readme_example_has_three_roots() {
    let (block, next) = UIxBlock::parse(tokens(README_EXAMPLE), 0).unwrap();
    assert_eq!(next, 11);
    let roots = block.roots();
    assert_eq!(roots.len(), 3);
    assert_eq!(roots[0].props.len(), 3);
    assert_eq!(roots[0].props[0].key, "name");
    assert_eq!(roots[0].props[2].key, "uuid");
    assert_eq!(roots[0].styles.len(), 1);
    assert_eq!(TokenStreamText::of(roots[0].styles[0].expr()), "class01,class02,render=self.debug_mode");
    assert_eq!(roots[0].children.len(), 1);
    assert_eq!(roots[0].children[0].children.len(), 2);
    assert_eq!(roots[0].children[0].children[1].index, 3);
    assert_eq!(roots[1].index, 4);
    assert_eq!(roots[2].index, 6);
    assert_eq!(roots[2].children.len(), 3);
    assert_eq!(roots[2].children[2].children[0].index, 10);
}

#[test]
fn an_event_named_after_a_colon() {
    let source = r#"
        #[on:load(load_callback)]
        <ElementTestImpl name=root01_name />
    "#;
    let (block, _) = UIxBlock::parse(tokens(source), 0).unwrap();
    let e = &block.roots()[0];
    assert_eq!(e.events.len(), 1);
    assert_eq!(TokenStreamText::of(e.events[0].kind()), "load");
    let handlers: Vec<String> = e.events[0].handlers().iter().map(|h| TokenStreamText::of(h)).collect();
    assert_eq!(handlers, vec!["load_callback"]);
    assert_eq!(e.props.len(), 1);
    assert_eq!(e.props[0].key, "name");
    assert_eq!(TokenStreamText::of(&e.props[0].value.as_ref().unwrap().0), "root01_name");
}

#[test]
fn an_event_after_a_colon_needs_its_handlers_in_parentheses() {
    let source = r#"
        #[on:load]
        <ElementTestImpl />
    "#;
    assert_eq!(UIxBlock::parse(tokens(source), 0).err(), Some(UIxError::UnexpectedToken));
    let source = r#"
        #[style:load(x)]
        <ElementTestImpl />
    "#;
    assert_eq!(UIxBlock::parse(tokens(source), 0).err(), Some(UIxError::ExpectedList));
}

const TOOLBAR: &str = r##"
    .toolbar, .toolbar_section {
        FlexDirection::Column,
        FlexGrow::new(0.),
        BackgroundColor::hex("#333333"),
        Padding::new(4.),
    }
    #[style(FlexGrow::new(1.))]
    #[style(FlexDirection::Row)]
    <Sidebar>
        #[class(toolbar)]
        <Div>
            #[class(toolbar_section)]
            <Section>
                #[class(toolbar_button)]
                <Button value="TODO">
                    <TextBlock text="1" />
                </Button>
                #[class(toolbar_button)]
                <Button value="TODO">
                    <TextBlock text="2" />
                </Button>
            </Section>
        </Div>
    </Sidebar>

    .toolbar_button {
        BackgroundColor::hex("#444444"),
        BoxSize::both(30., 30.),
    }
    <Spacer />
"##;

#[test]
fn toolbar_markup() {
    let (block, next) = UIxBlock::parse(tokens(TOOLBAR), 100).unwrap();
    assert_eq!(next, 108);
    let styles = block.styles();
    let names: Vec<&str> = styles.iter().map(|c| c.name.as_str()).collect();
    assert_eq!(names, vec!["toolbar", "toolbar_section", "toolbar_button"]);
    assert_eq!(styles[0].exprs.len(), 4);
    assert_eq!(styles[1].exprs.len(), 4);
    assert_eq!(styles[2].exprs.len(), 2);
    let roots = block.roots();
    assert_eq!(roots.len(), 2);
    let sidebar = &roots[0];
    assert_eq!(sidebar.ident, "Sidebar");
    assert_eq!(sidebar.styles.len(), 2);
    let section = &sidebar.children[0].children[0];
    assert_eq!(section.ident, "Section");
    assert_eq!(section.children.len(), 2);
    assert_eq!(section.children[1].children[0].ident, "TextBlock");
    assert_eq!(section.children[1].children[0].index, 106);
    assert_eq!((roots[1].ident.as_str(), roots[1].index), ("Spacer", 107));
}

#[test]
fn class_blocks_may_follow_one_another() {
    let source = r##"
        .a { FlexGrow::new(1.) }
        .b { Gap::new(10.) }
        <Div />
    "##;
    let (block, next) = UIxBlock::parse(tokens(source), 0).unwrap();
    assert_eq!(next, 1);
    let styles = block.styles();
    assert_eq!(styles.len(), 2);
    assert_eq!((styles[0].name.as_str(), TokenStreamText::of(&styles[0].exprs[0]).as_str()), ("a", "FlexGrow::new(1.)"));
    assert_eq!((styles[1].name.as_str(), TokenStreamText::of(&styles[1].exprs[0]).as_str()), ("b", "Gap::new(10.)"));
    let roots = block.roots();
    assert_eq!(roots.len(), 1);
    assert_eq!(roots[0].ident, "Div");
    assert!(roots[0].root);
}

#[test]
fn a_class_block_needs_more_of_the_block_after_it() {
    assert_eq!(UIxBlock::parse(tokens("<Div /> .a { Gap::new(1.) }"), 5).err(), Some(UIxError::ExpectedPunct('<')));
    assert!(UIxBlock::parse(tokens(".a { Gap::new(1.) } .b { Gap::new(2.) } <Div />"), 5).is_ok());
}

#[test]
fn toolbar_expansion_declares_the_classes_first() {
    let (out, _) = uix(tokens(TOOLBAR), 0);
    let text = TokenStreamText::of(&out);
    let toolbar = text.find("let toolbar=move").unwrap();
    let button = text.find("let toolbar_button=move").unwrap();
    let sidebar = text.find("let _00000=scaffold").unwrap();
    assert!(toolbar < button && button < sidebar);
    assert!(text.contains("with_class_attr(toolbar_button)?"));
    assert!(text.contains("with_value(\"TODO\")"));
}

/// Token trees written back as compact text.
struct TokenStreamText;

impl TokenStreamText {
    fn of(trees: &[TokenTree]) -> String {
        let mut out = String::new();
        for t in trees {
            match t {
                TokenTree::Ident(w) => {
                    if out.ends_with(|c: char| c.is_alphanumeric() || c == '_') {
                        out.push(' ');
                    }
                    out.push_str(w);
                },
                TokenTree::Literal(w) => out.push_str(w),
                TokenTree::Punct(c, _) => out.push(*c),
                TokenTree::Group(d, inner) => {
                    let (open, close) = match d {
                        Delimiter::Parenthesis => ("(", ")"),
                        Delimiter::Brace => ("{", "}"),
                        Delimiter::Bracket => ("[", "]"),
                        Delimiter::Invisible => ("", ""),
                    };
                    out.push_str(open);
                    out.push_str(&TokenStreamText::of(inner));
                    out.push_str(close);
                },
            }
        }
        out
    }
}

#[test]
fn derive_element_gives_display_and_element() {
    let source = r#"
        /// A text input.
        #[render(self.view, if self.visible {})]
        pub(crate) struct TextInput {
            #[prop(value)]
            value: Option<Mutex<String>>,
            cursor_pos: usize,
        }
    "#;
    assert_eq!(check_derive(&tokens(source)), Ok(()));
    let out = derive_element(tokens(source));
    assert_eq!(
        TokenStreamText::of(&out),
        "#[automatically_derived]impl core::fmt::Display for TextInput{fn fmt(&self,f:&mut core::fmt::Formatter<'_>)->core::fmt::Result{f.write_str(\"<#root_ident>\")}}#[automatically_derived]impl slate::element::Element for TextInput{}"
    );
    assert!(check_derive(&tokens("struct Unit;")).is_ok());
    assert!(check_derive(&tokens("#[render(view::main)] struct A;")).is_ok());
    assert!(check_derive(&tokens("#[render(self.a().b)] struct A;")).is_ok());
    assert!(check_derive(&tokens("#[render(self.items[0].x, if self.on {})] struct A;")).is_ok());
    assert_eq!(check_derive(&tokens("#[render(self.a())] struct A;")).err(), Some(UIxError::UnsupportedRenderArgument));
    assert_eq!(check_derive(&tokens("#[render(self.a?)] struct A;")).err(), Some(UIxError::UnsupportedRenderArgument));
    assert!(TokenStreamText::of(&derive_element(tokens("struct Unit;"))).contains("impl slate::element::Element for Unit{}"));
}

#[test]
fn check_derive_finds_what_the_derive_panics_on() {
    assert_eq!(check_derive(&tokens("enum E { A }")).err(), Some(UIxError::NotAStruct));
    assert_eq!(check_derive(&tokens("union U { a: u8 }")).err(), Some(UIxError::NotAStruct));
    assert_eq!(check_derive(&tokens("#[render()] struct A;")).err(), Some(UIxError::RenderArguments));
    assert_eq!(check_derive(&tokens("#[render(a, if b {}, c)] struct A;")).err(), Some(UIxError::RenderArguments));
    assert_eq!(check_derive(&tokens("#[render(a, b)] struct A;")).err(), Some(UIxError::RenderPathTwice));
    assert_eq!(check_derive(&tokens("#[render(1)] struct A;")).err(), Some(UIxError::UnsupportedRenderArgument));
    assert_eq!(check_derive(&tokens("#[render(if b {})] struct A;")).err(), Some(UIxError::UnsupportedRenderArgument));
    assert_eq!(check_derive(&tokens("#[render(self.a, self.b)] struct A;")).err(), Some(UIxError::UnsupportedRenderArgument));
}
