use std::str::FromStr;

use proc_macro2::{Delimiter as PmDelimiter, Spacing as PmSpacing, TokenStream, TokenTree as PmTree};
use slate::chalk::{asdf_style_property, asdf_unit, derive_color, derive_rect, derive_size2d};
use slate::uix::syntax::UIxError;
use slate::uix::token::{Delimiter, Spacing, TokenTree};

fn tokens(source: &str) -> Vec<TokenTree> {
    fn convert(stream: TokenStream) -> Vec<TokenTree> {
        stream
            .into_iter()
            .map(|tree| match tree {
                PmTree::Group(g) => TokenTree::Group(
                    match g.delimiter() {
                        PmDelimiter::Parenthesis => Delimiter::Parenthesis,
                        PmDelimiter::Brace => Delimiter::Brace,
                        PmDelimiter::Bracket => Delimiter::Bracket,
                        PmDelimiter::None => Delimiter::Invisible,
                    },
                    convert(g.stream()),
                ),
                PmTree::Ident(i) => TokenTree::Ident(i.to_string()),
                PmTree::Punct(p) => TokenTree::Punct(
                    p.as_char(),
                    match p.spacing() {
                        PmSpacing::Joint => Spacing::Joint,
                        PmSpacing::Alone => Spacing::Alone,
                    },
                ),
                PmTree::Literal(l) => TokenTree::Literal(l.to_string()),
            })
            .collect()
    }
    convert(TokenStream::from_str(source).unwrap())
}

const UNIT: &str = r#"
#[automatically_derived]
impl #name {
    pub fn new<U: Into<Unit>>(value: U) -> Self {
        Self(value.into())
    }
    pub fn unit(&self) -> &Unit {
        &self.0
    }
}
#[automatically_derived]
impl From<Unit> for #name {
    fn from(unit: Unit) -> Self {
        Self(unit)
    }
}
#[automatically_derived]
impl Into<Unit> for #name {
    fn into(self) -> Unit {
        self.0
    }
}
#[automatically_derived]
impl Deref for #name {
    type Target = Unit<f32>;
    fn deref(&self) -> &Self::Target {
        &self.0
    }
}
#[automatically_derived]
impl Into<StyleValue> for #name {
    fn into(self) -> StyleValue {
        StyleValue::#name(self)
    }
}
#[automatically_derived]
impl Style for #name {
}
"#;

const RECT: &str = r#"
#[automatically_derived]
impl #name {
    #[inline(always)]
    pub fn new<U: Into<Unit<f32>>>(all: U) -> Self {
        let all = all.into();
        #name ::all(all, all, all, all)
    }
    #[inline(always)]
    pub fn all<U1: Into<Unit<f32>>, U2: Into<Unit<f32>>, U3: Into<Unit<f32>>, U4: Into<Unit<f32>>>(top: U1, right: U2, bottom: U3, left: U4) -> Self {
        #name(Rect::all(top, right, bottom, left))
    }
    #[inline(always)]
    pub fn xy<U1: Into<Unit<f32>> + Copy, U2: Into<Unit<f32>> + Copy>(x: U1, y: U2) -> Self {
        #name(Rect::all(y, x, y, x))
    }
}
#[automatically_derived]
impl #name {
    #[inline(always)]
    pub fn rect<'rect>(&'rect self) -> &'rect Rect {
        &self.0
    }
}
#[automatically_derived]
impl Deref for #name {
    type Target = Rect;
    fn deref(&self) -> &Self::Target {
        &self.0
    }
}
#[automatically_derived]
impl Into<Rect> for #name {
    fn into(self) -> Rect {
        self.0
    }
}
#[automatically_derived]
impl Into<StyleValue> for #name {
    fn into(self) -> StyleValue {
        StyleValue::#name(self)
    }
}
#[automatically_derived]
impl Style for #name {
}
"#;

const SIZE2D: &str = r#"
impl #name {
    #[inline(always)]
    pub fn new<U1: Into<Unit<f32>>, U2: Into<Unit<f32>>>(x: U1, y: U2) -> Self {
        #name ::xy(x, y)
    }
    #[inline(always)]
    pub fn both<U1: Into<Unit<f32>>, U2: Into<Unit<f32>>>(x: U1, y: U2) -> Self {
        #name ::xy(x, y)
    }
    #[inline(always)]
    pub fn xy<U1: Into<Unit<f32>>, U2: Into<Unit<f32>>>(x: U1, y: U2) -> Self {
        #name(Size2d(x.into(), y.into()))
    }
}
impl Deref for #name {
    type Target = Size2d;
    fn deref(&self) -> &Self::Target {
        &self.0
    }
}
impl #name {
    #[inline(always)]
    pub fn get_size_2d<'rect>(&'rect self) -> &'rect Size2d {
        &self.0
    }
}
impl Into<StyleValue> for #name {
    fn into(self) -> StyleValue {
        StyleValue::#name(self)
    }
}
impl Style for #name {
}
"#;

const COLOR: &str = r#"
#[automatically_derived]
impl #name {
    #[inline(always)]
    pub fn hex(hex: &str) -> Self {
        #name(Color::hex(hex).unwrap_or(Color::Transparent))
    }
}
#[automatically_derived]
impl #name {
    pub fn color(&self) -> &Color {
        &self.0
    }
}
#[automatically_derived]
impl Deref for #name {
    type Target = Color;
    fn deref(&self) -> &Self::Target {
        &self.0
    }
}
#[automatically_derived]
impl Into<StyleValue> for #name {
    fn into(self) -> StyleValue {
        StyleValue::#name(self)
    }
}
#[automatically_derived]
impl Style for #name {
}
"#;

fn expected(template: &str, name: &str) -> String {
    TokenStreamText::of(&tokens(&template.replace("#name", name)))
}

#[test]
fn derive_unit_gives_the_unit_impls() {
    let out = asdf_unit(tokens("pub struct Width(Unit);")).unwrap();
    assert_eq!(TokenStreamText::of(&out), expected(UNIT, "Width"));
}

#[test]
fn derive_rect_gives_the_rect_impls() {
    let out = derive_rect(tokens("#[derive(Debug)] pub(crate) struct Padding(Rect);")).unwrap();
    assert_eq!(TokenStreamText::of(&out), expected(RECT, "Padding"));
    assert!(TokenStreamText::of(&out).contains("Padding::all(all,all,all,all)"));
}

#[test]
fn derive_size2d_gives_the_size_impls() {
    let out = derive_size2d(tokens("struct BoxSize(Size2d);")).unwrap();
    assert_eq!(TokenStreamText::of(&out), expected(SIZE2D, "BoxSize"));
}

#[test]
fn derive_color_gives_the_color_impls() {
    let out = derive_color(tokens("pub enum BackgroundColor { A }")).unwrap();
    assert_eq!(TokenStreamText::of(&out), expected(COLOR, "BackgroundColor"));
}

#[test]
fn derive_style_property_gives_nothing() {
    assert!(asdf_style_property(tokens("union U { a: u8 }")).unwrap().is_empty());
}

#[test]
fn style_derives_need_an_item() {
    assert_eq!(derive_rect(tokens("fn f() {}")).err(), Some(UIxError::ExpectedItem));
    assert_eq!(asdf_unit(tokens("struct")).err(), Some(UIxError::ExpectedItem));
    assert_eq!(derive_size2d(tokens("")).err(), Some(UIxError::ExpectedItem));
    assert_eq!(derive_color(tokens("pub struct type;")).err(), Some(UIxError::ExpectedItem));
    assert_eq!(asdf_style_property(tokens("impl X {}")).err(), Some(UIxError::ExpectedItem));
}

/// Token trees written back as compact text.
struct TokenStreamText;

impl TokenStreamText {
    fn of(trees: &[TokenTree]) -> String {
        let mut out = String::new();
        for t in trees {
            match t {
                TokenTree::Ident(w) => {
                    if out.ends_with(|c: char| c.is_alphanumeric() || c == '_') {
                        out.push(' ');
                    }
                    out.push_str(w);
                },
                TokenTree::Literal(w) => out.push_str(w),
                TokenTree::Punct(c, _) => out.push(*c),
                TokenTree::Group(d, inner) => {
                    let (open, close) = match d {
                        Delimiter::Parenthesis => ("(", ")"),
                        Delimiter::Brace => ("{", "}"),
                        Delimiter::Bracket => ("[", "]"),
                        Delimiter::Invisible => ("", ""),
                    };
                    out.push_str(open);
                    out.push_str(&TokenStreamText::of(inner));
                    out.push_str(close);
                },
            }
        }
        out
    }
}
